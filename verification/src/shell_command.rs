//! The command of a terminal session: a test override in debug builds, else the
//! configured shell.
use crate::json::{json_items, json_member, json_str, json_texts, member};
use crate::platform::Platform;
use crate::session_types::PtyCommand;
use crate::text::{chars_of, texts_of, trim, trimmed, CharClass};
use crate::wire::{plain_error, text_view, ErrorCode, ErrorView, WireError};
use vstd::prelude::*;

verus! {

/// The environment variable that names the shell.
pub const SHELL_OVERRIDE_ENV: &'static str = "DEVBOULE_SHELL";

/// The file inside the runtime directory that holds a test override.
pub const TEST_PTY_COMMAND_FILE: &'static str = ".test-pty-command";

/// The value that a JSON document's bytes hold, as `serde_json::from_slice`
/// reads them; nothing where they are no document.
pub uninterp spec fn json_document(bytes: Seq<u8>) -> Option<serde_json::Value>;

/// `serde_json::from_slice` into a `serde_json::Value`: the value of the
/// document, where the bytes are one.
#[verifier::external_body]
fn parse_document(bytes: &[u8]) -> (r: Option<serde_json::Value>)
    ensures
        r == json_document(bytes@),
{
    serde_json::from_slice(bytes).ok()
}

/// What a command is started as: its program, its arguments and its directory.
pub ghost struct CommandView {
    pub program: Seq<char>,
    pub args: Seq<Seq<char>>,
    pub cwd: Seq<char>,
}

/// A command that was made without an environment and without a provider.
pub open spec fn is_bare(command: PtyCommand, v: CommandView) -> bool {
    &&& command.program@ == v.program
    &&& texts_of(command.args@) == v.args
    &&& command.cwd@ == v.cwd
    &&& command.env@.len() == 0
    &&& command.provider_id is None
}

/// What an override says: the program it names, the arguments that are texts,
/// and its directory, if it names one.
pub open spec fn override_program(value: serde_json::Value) -> Option<Seq<char>> {
    match json_member(value, "program"@) {
        Some(p) => json_str(p),
        None => None,
    }
}

pub open spec fn override_args(value: serde_json::Value) -> Seq<Seq<char>> {
    match json_member(value, "args"@) {
        Some(a) => match json_items(a) {
            Some(items) => json_texts(items),
            None => Seq::empty(),
        },
        None => Seq::empty(),
    }
}

pub open spec fn override_cwd(value: serde_json::Value) -> Option<Seq<char>> {
    match json_member(value, "cwd"@) {
        Some(c) => json_str(c),
        None => None,
    }
}

/// The command of an override, from what it says: a program is required, and a
/// missing directory is replaced by the daemon's own, if there is one.
pub open spec fn overriding(
    program: Option<Seq<char>>,
    args: Seq<Seq<char>>,
    cwd: Option<Seq<char>>,
    current_dir: Option<Seq<char>>,
) -> Option<CommandView> {
    match (program, cwd, current_dir) {
        (Some(program), Some(cwd), _) => Some(CommandView { program, args, cwd }),
        (Some(program), None, Some(cwd)) => Some(CommandView { program, args, cwd }),
        _ => None,
    }
}

/// The command of an override document.
pub open spec fn document_command(bytes: Seq<u8>, current_dir: Option<Seq<char>>) -> Option<
    CommandView,
> {
    match json_document(bytes) {
        None => None,
        Some(value) => overriding(
            override_program(value),
            override_args(value),
            override_cwd(value),
            current_dir,
        ),
    }
}

/// Puts the command of an override together.
pub fn override_command(
    program: Option<String>,
    args: Vec<String>,
    cwd: Option<String>,
    current_dir: Option<String>,
) -> (r: Option<PtyCommand>)
    ensures
        match overriding(
            text_view(program),
            texts_of(args@),
            text_view(cwd),
            text_view(current_dir),
        ) {
            Some(v) => r matches Some(c) && is_bare(c, v),
            None => r is None,
        },
{
    match (program, cwd, current_dir) {
        (Some(program), Some(cwd), _) => Some(
            PtyCommand::new(program.as_str(), args, cwd, Vec::new()),
        ),
        (Some(program), None, Some(cwd)) => Some(
            PtyCommand::new(program.as_str(), args, cwd, Vec::new()),
        ),
        _ => None,
    }
}

/// The command in the bytes of an override file. `current_dir` is the daemon's
/// own directory.
pub fn load_test_pty_command(bytes: &[u8], current_dir: Option<String>) -> (r: Option<PtyCommand>)
    ensures
        match document_command(bytes@, text_view(current_dir)) {
            Some(v) => r matches Some(c) && is_bare(c, v),
            None => r is None,
        },
{
    let value = match parse_document(bytes) {
        None => {
            return None;
        },
        Some(value) => value,
    };
    let mut program: Option<String> = None;
    if let Some(p) = member(&value, "program") {
        if let Some(t) = p.as_str() {
            program = Some(t.to_owned());
        }
    }
    let mut cwd: Option<String> = None;
    if let Some(c) = member(&value, "cwd") {
        if let Some(t) = c.as_str() {
            cwd = Some(t.to_owned());
        }
    }
    let mut args: Vec<String> = Vec::new();
    assert(texts_of(args@) =~= Seq::<Seq<char>>::empty());
    if let Some(a) = member(&value, "args") {
        if let Some(items) = a.as_array() {
            let mut i: usize = 0;
            assert(texts_of(args@) =~= json_texts(items@.take(0)));
            while i < items.len()
                invariant
                    i <= items@.len(),
                    texts_of(args@) == json_texts(items@.take(i as int)),
                decreases items@.len() - i,
            {
                assert(items@.take(i + 1).drop_last() =~= items@.take(i as int));
                if let Some(t) = items[i].as_str() {
                    let ghost before = args@;
                    args.push(t.to_owned());
                    assert(texts_of(args@) =~= texts_of(before).push(t@));
                }
                i = i + 1;
            }
            assert(items@.take(i as int) =~= items@);
        }
    }
    assert(texts_of(args@) == override_args(value));
    override_command(program, args, cwd, current_dir)
}

/// The names and the texts of an object's members.
pub open spec fn text_members(members: Seq<(&str, &str)>) -> Seq<(Seq<char>, Seq<char>)> {
    members.map_values(|m: (&str, &str)| (m.0@, m.1@))
}

/// The names of an object's members and the texts in their arrays.
pub open spec fn list_members(members: Seq<(&str, &Vec<String>)>) -> Seq<
    (Seq<char>, Seq<Seq<char>>),
> {
    members.map_values(|m: (&str, &Vec<String>)| (m.0@, texts_of(m.1@)))
}

/// No name occurs twice.
pub open spec fn names_once(
    texts: Seq<(Seq<char>, Seq<char>)>,
    lists: Seq<(Seq<char>, Seq<Seq<char>>)>,
) -> bool {
    &&& forall|i: int, j: int| 0 <= i < j < texts.len() ==> (#[trigger] texts[i]).0 != (
    #[trigger] texts[j]).0
    &&& forall|i: int, j: int| 0 <= i < j < lists.len() ==> (#[trigger] lists[i]).0 != (
    #[trigger] lists[j]).0
    &&& forall|i: int, j: int|
        0 <= i < texts.len() && 0 <= j < lists.len() ==> (#[trigger] texts[i]).0 != (
        #[trigger] lists[j]).0
}

/// A value is an array of these texts.
pub open spec fn is_list(value: serde_json::Value, texts: Seq<Seq<char>>) -> bool {
    match json_items(value) {
        Some(items) => items.len() == texts.len() && forall|i: int|
            0 <= i < items.len() ==> json_str(#[trigger] items[i]) == Some(texts[i]),
        None => false,
    }
}

/// A document is an object with these texts and arrays of texts as its members,
/// and no others.
pub open spec fn has_members(
    document: Option<serde_json::Value>,
    texts: Seq<(Seq<char>, Seq<char>)>,
    lists: Seq<(Seq<char>, Seq<Seq<char>>)>,
) -> bool {
    match document {
        None => false,
        Some(value) => {
            &&& forall|i: int|
                0 <= i < texts.len() ==> (json_member(value, (#[trigger] texts[i]).0) matches Some(m)
                    && json_str(m) == Some(texts[i].1))
            &&& forall|i: int|
                0 <= i < lists.len() ==> (json_member(value, (#[trigger] lists[i]).0) matches Some(m)
                    && is_list(m, lists[i].1))
            &&& forall|key: Seq<char>| #[trigger]
                json_member(value, key) is Some ==> (exists|i: int|
                    0 <= i < texts.len() && (#[trigger] texts[i]).0 == key) || (exists|i: int|
                    0 <= i < lists.len() && (#[trigger] lists[i]).0 == key)
        },
    }
}

/// `serde_json`'s writing of an object (`Map` collected from its members,
/// `Value::from` for each, and the `Display` of `Value`). What
/// `serde_json::from_slice` reads from it is an object with exactly those
/// members: it escapes texts so that they are read back as they were, and texts
/// and arrays of texts are far from its depth limit.
#[verifier::external_body]
fn written_object(texts: &Vec<(&str, &str)>, lists: &Vec<(&str, &Vec<String>)>) -> (r: String)
    requires
        names_once(text_members(texts@), list_members(lists@)),
    ensures
        has_members(
            json_document(vstd::utf8::encode_utf8(r@)),
            text_members(texts@),
            list_members(lists@),
        ),
{
    let texts = texts.iter().map(|m| (m.0.to_string(), serde_json::Value::from(m.1)));
    let lists = lists.iter().map(|m| (m.0.to_string(), serde_json::Value::from(m.1.clone())));
    serde_json::Value::Object(texts.chain(lists).collect()).to_string()
}

/// The texts of an array that holds nothing else.
proof fn lemma_all_texts(items: Seq<serde_json::Value>, texts: Seq<Seq<char>>)
    requires
        items.len() == texts.len(),
        forall|i: int| 0 <= i < items.len() ==> json_str(#[trigger] items[i]) == Some(texts[i]),
    ensures
        json_texts(items) == texts,
    decreases items.len(),
{
    if items.len() > 0 {
        lemma_all_texts(items.drop_last(), texts.drop_last());
        assert(texts =~= texts.drop_last().push(texts.last()));
    } else {
        assert(json_texts(items) =~= texts);
    }
}

/// The text of an override file for a command: reading it gives the command's
/// program, arguments and directory back, whatever the daemon's directory is.
pub fn test_pty_command_text(command: &PtyCommand) -> (r: String)
    ensures
        forall|current_dir: Option<Seq<char>>| #[trigger]
            document_command(vstd::utf8::encode_utf8(r@), current_dir) == Some(
                CommandView {
                    program: command.program@,
                    args: texts_of(command.args@),
                    cwd: command.cwd@,
                },
            ),
{
    let mut texts: Vec<(&str, &str)> = Vec::new();
    texts.push(("program", command.program.as_str()));
    texts.push(("cwd", command.cwd.as_str()));
    let mut lists: Vec<(&str, &Vec<String>)> = Vec::new();
    lists.push(("args", &command.args));
    let ghost named = text_members(texts@);
    let ghost listed = list_members(lists@);
    proof {
        reveal_strlit("program");
        reveal_strlit("cwd");
        reveal_strlit("args");
        assert(named[0] == ("program"@, command.program@));
        assert(named[1] == ("cwd"@, command.cwd@));
        assert(listed[0] == ("args"@, texts_of(command.args@)));
        assert("program"@.len() == 7 && "cwd"@.len() == 3 && "args"@.len() == 4);
    }
    let r = written_object(&texts, &lists);
    proof {
        let value = json_document(vstd::utf8::encode_utf8(r@))->0;
        let items = json_items(json_member(value, listed[0].0)->0)->0;
        lemma_all_texts(items, listed[0].1);
        assert(override_program(value) == Some(named[0].1));
        assert(override_cwd(value) == Some(named[1].1));
        assert(override_args(value) == listed[0].1);
    }
    r
}

/// The arguments that a shell is started with: none off Windows.
pub open spec fn default_shell_args(platform: Platform) -> Seq<Seq<char>> {
    match platform {
        Platform::Windows => seq!["-NoLogo"@, "-NoProfile"@],
        Platform::Unix => Seq::empty(),
    }
}

fn shell_args(platform: Platform) -> (r: Vec<String>)
    ensures
        texts_of(r@) == default_shell_args(platform),
{
    let mut r: Vec<String> = Vec::new();
    if platform == Platform::Windows {
        r.push("-NoLogo".to_owned());
        r.push("-NoProfile".to_owned());
    }
    assert(texts_of(r@) =~= default_shell_args(platform));
    r
}

/// What the environment says about shells.
#[derive(Debug)]
pub struct ShellChoice {
    /// The shell that the user configured for the daemon.
    pub configured: Option<String>,
    /// Whether `pwsh.exe` is on the path; Windows asks.
    pub pwsh_on_path: bool,
    /// The user's login shell; other platforms ask.
    pub login_shell: Option<String>,
}

/// The shell: the configured one unless it is blank. Else, on Windows,
/// `pwsh.exe` where it is on the path and `powershell.exe` where it is not, and
/// elsewhere the login shell, or `/bin/sh` where there is none.
pub open spec fn shell_program(platform: Platform, choice: ShellChoice) -> Seq<char> {
    match (text_view(choice.configured), platform) {
        (Some(shell), _) if trim(shell, CharClass::White).len() > 0 => shell,
        (_, Platform::Windows) => if choice.pwsh_on_path {
            "pwsh.exe"@
        } else {
            "powershell.exe"@
        },
        (_, Platform::Unix) => match choice.login_shell {
            Some(shell) => shell@,
            None => "/bin/sh"@,
        },
    }
}

fn configured_shell(platform: Platform, choice: ShellChoice) -> (r: (String, Vec<String>))
    ensures
        r.0@ == shell_program(platform, choice),
        texts_of(r.1@) == default_shell_args(platform),
{
    if let Some(shell) = choice.configured {
        let chars = chars_of(shell.as_str());
        if trimmed(chars.as_slice(), CharClass::White).len() > 0 {
            return (shell, shell_args(platform));
        }
    }
    let program = match platform {
        Platform::Windows => if choice.pwsh_on_path {
            "pwsh.exe".to_owned()
        } else {
            "powershell.exe".to_owned()
        },
        Platform::Unix => match choice.login_shell {
            Some(shell) => shell,
            None => "/bin/sh".to_owned(),
        },
    };
    (program, shell_args(platform))
}

/// No directory for the terminal.
pub open spec fn no_directory(error: Seq<char>) -> ErrorView {
    plain_error(ErrorCode::Io, "Could not determine terminal directory: "@ + error)
}

/// The command of the shell, in the daemon's directory.
pub fn shell_command(
    platform: Platform,
    current_dir: Result<String, String>,
    choice: ShellChoice,
) -> (r: Result<PtyCommand, WireError>)
    ensures
        match current_dir {
            Err(error) => r matches Err(e) && e@ == no_directory(error@),
            Ok(cwd) => r matches Ok(c) && is_bare(
                c,
                CommandView {
                    program: shell_program(platform, choice),
                    args: default_shell_args(platform),
                    cwd: cwd@,
                },
            ),
        },
{
    match current_dir {
        Err(error) => {
            let mut message = "Could not determine terminal directory: ".to_owned();
            message.append(error.as_str());
            Err(WireError::new(ErrorCode::Io, message))
        },
        Ok(cwd) => {
            let (program, args) = configured_shell(platform, choice);
            Ok(PtyCommand::new(program.as_str(), args, cwd, Vec::new()))
        },
    }
}

/// The command of a terminal session. `override_file` has the bytes of the
/// override file, where there is one and the build honours it.
pub fn resolve_pty_command(
    platform: Platform,
    override_file: Option<Vec<u8>>,
    current_dir: Result<String, String>,
    choice: ShellChoice,
) -> (r: Result<PtyCommand, WireError>)
    ensures
        ({
            let own = match current_dir {
                Ok(cwd) => Some(cwd@),
                Err(_) => None,
            };
            let found = match override_file {
                Some(bytes) => document_command(bytes@, own),
                None => None,
            };
            match (found, current_dir) {
                (Some(v), _) => r matches Ok(c) && is_bare(c, v),
                (None, Err(error)) => r matches Err(e) && e@ == no_directory(error@),
                (None, Ok(cwd)) => r matches Ok(c) && is_bare(
                    c,
                    CommandView {
                        program: shell_program(platform, choice),
                        args: default_shell_args(platform),
                        cwd: cwd@,
                    },
                ),
            }
        }),
{
    if let Some(bytes) = &override_file {
        let own = match &current_dir {
            Ok(cwd) => Some(cwd.clone()),
            Err(_) => None,
        };
        if let Some(command) = load_test_pty_command(bytes.as_slice(), own) {
            return Ok(command);
        }
    }
    shell_command(platform, current_dir, choice)
}

/// A document names the command: its `program` must be text, of `args` the texts
/// count, and without a `cwd` the command runs where the daemon does.
pub proof fn law_documents_name_the_command(
    program: Seq<char>,
    args: Seq<Seq<char>>,
    cwd: Seq<char>,
    current: Option<Seq<char>>,
)
    ensures
        overriding(None, args, Some(cwd), current) is None,
        overriding(Some(program), args, None, None) is None,
        overriding(Some(program), args, Some(cwd), current) matches Some(c) && c.program == program
            && c.args == args && c.cwd == cwd,
        overriding(Some(program), args, None, Some(cwd)) matches Some(c) && c.program == program
            && c.args == args && c.cwd == cwd,
{
}

/// The members of a document are read under their own names; one that is missing
/// or of another kind is none, and its arguments are then empty.
pub proof fn law_members_are_read_by_name(
    bytes: Seq<u8>,
    value: serde_json::Value,
    current: Option<Seq<char>>,
)
    ensures
        ({
            let text = |key: Seq<char>|
                match json_member(value, key) {
                    Some(m) => json_str(m),
                    None => None,
                };
            let items = match json_member(value, "args"@) {
                Some(m) => json_items(m),
                None => None,
            };
            let command = document_command(bytes, current);
            let runs = text("program"@) is Some && (text("cwd"@) is Some || current is Some);
            &&& json_document(bytes) is None ==> command is None
            &&& json_document(bytes) == Some(value) ==> {
                &&& command is Some <==> runs
                &&& (command matches Some(c) ==> {
                    &&& Some(c.program) == text("program"@)
                    &&& text("cwd"@) is Some ==> Some(c.cwd) == text("cwd"@)
                    &&& text("cwd"@) is None ==> Some(c.cwd) == current
                    &&& items is None ==> c.args.len() == 0
                    &&& items is Some ==> c.args == json_texts(items->0)
                })
            }
        }),
{
}

/// The shell is the configured one where that is not blank; else PowerShell on
/// Windows, the newer one where it is found, and the login shell elsewhere.
pub proof fn law_shells_are_chosen_in_this_order(choice: ShellChoice, shell: String)
    ensures
        ({
            let blank = choice.configured is None || trim(
                choice.configured->0@,
                CharClass::White,
            ).len() == 0;
            let windows = shell_program(Platform::Windows, choice);
            let unix = shell_program(Platform::Unix, choice);
            &&& choice.configured == Some(shell) && trim(shell@, CharClass::White).len() > 0
                ==> windows == shell@ && unix == shell@
            &&& blank && choice.pwsh_on_path ==> windows == "pwsh.exe"@
            &&& blank && !choice.pwsh_on_path ==> windows == "powershell.exe"@
            &&& blank && choice.login_shell == Some(shell) ==> unix == shell@
            &&& blank && choice.login_shell is None ==> unix == "/bin/sh"@
        }),
        default_shell_args(Platform::Unix).len() == 0,
        default_shell_args(Platform::Windows) == seq!["-NoLogo"@, "-NoProfile"@],
{
}

/// Without a directory to run in there is no shell, and the cause is told.
pub proof fn law_terminals_need_a_directory(error: Seq<char>)
    ensures
        no_directory(error) == (ErrorView {
            code: ErrorCode::Io,
            message: "Could not determine terminal directory: "@ + error,
            details: None,
        }),
{
}

} // verus!

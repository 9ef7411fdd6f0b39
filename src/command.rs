use vstd::prelude::*;

use crate::directory::{
    authenticate_spec, change_credential_spec, deauthenticate_spec, default_pass, register_spec,
    Directory, Users,
};
use crate::error::ChatError;
use crate::fanout::{broadcast, broadcast_text, is_fanout, Delivery};
use crate::text::{
    chars_of, is_space, join, join_from, normalize_line, normalized, split_words, string_of, views,
    word_is, words, words_from,
};

verus! {

/// One command line, parsed.
#[derive(Debug)]
pub enum Command {
    /// `#setname <handle>`
    SetName(String),
    /// `#login <handle> <credential>`
    Login(String, String),
    /// `#logout`
    Logout,
    /// `#changepass <old credential> <new credential>`
    ChangePass(String, String),
    /// `#broadcast <message...>` or `#b <message...>`, the words of the
    /// message joined by single spaces.
    Broadcast(String),
    /// `#help`
    Help,
}

/// A parsed command over character sequences.
pub enum CommandView {
    SetName(Seq<char>),
    Login(Seq<char>, Seq<char>),
    Logout,
    ChangePass(Seq<char>, Seq<char>),
    Broadcast(Seq<char>),
    Help,
}

impl View for Command {
    type V = CommandView;

    open spec fn view(&self) -> CommandView {
        match self {
            Command::SetName(h) => CommandView::SetName(h@),
            Command::Login(h, c) => CommandView::Login(h@, c@),
            Command::Logout => CommandView::Logout,
            Command::ChangePass(o, n) => CommandView::ChangePass(o@, n@),
            Command::Broadcast(m) => CommandView::Broadcast(m@),
            Command::Help => CommandView::Help,
        }
    }
}

/// The command named `name` with the arguments `args`, or why there is none.
pub open spec fn command_of(name: Seq<char>, args: Seq<Seq<char>>) -> Result<CommandView, ChatError> {
    if name == "#setname"@ {
        if args.len() == 1 {
            Ok(CommandView::SetName(args[0]))
        } else {
            Err(ChatError::UsageError)
        }
    } else if name == "#login"@ {
        if args.len() == 2 {
            Ok(CommandView::Login(args[0], args[1]))
        } else {
            Err(ChatError::UsageError)
        }
    } else if name == "#logout"@ {
        if args.len() == 0 {
            Ok(CommandView::Logout)
        } else {
            Err(ChatError::UsageError)
        }
    } else if name == "#changepass"@ {
        if args.len() == 2 {
            Ok(CommandView::ChangePass(args[0], args[1]))
        } else {
            Err(ChatError::UsageError)
        }
    } else if name == "#broadcast"@ || name == "#b"@ {
        if args.len() >= 1 {
            Ok(CommandView::Broadcast(join(args)))
        } else {
            Err(ChatError::UsageError)
        }
    } else if name == "#help"@ {
        if args.len() == 0 {
            Ok(CommandView::Help)
        } else {
            Err(ChatError::UsageError)
        }
    } else {
        Err(ChatError::UnknownCommand)
    }
}

/// The command that a normalized line holds: an empty line and a line without
/// the leading `#` are refused; otherwise the first word names the command
/// and the others are its arguments.
pub open spec fn parse_spec(line: Seq<char>) -> Result<CommandView, ChatError> {
    if line.len() == 0 {
        Err(ChatError::EmptyInput)
    } else if line[0] != '#' {
        Err(ChatError::MalformedCommand)
    } else {
        command_of(words(line)[0], words(line).drop_first())
    }
}

proof fn lemma_words_from_nonempty(s: Seq<char>, cur: Seq<char>)
    requires
        cur.len() > 0 || (s.len() > 0 && !is_space(s[0])),
    ensures
        words_from(s, cur).len() > 0,
    decreases s.len(),
{
    if s.len() > 0 {
        if !is_space(s[0]) {
            lemma_words_from_nonempty(s.drop_first(), cur.push(s[0]));
        }
    }
}

/// Parses one normalized line into a command.
pub fn parse_command(line: &str) -> (r: Result<Command, ChatError>)
    ensures
        match r {
            Ok(c) => parse_spec(line@) == Ok::<CommandView, ChatError>(c@),
            Err(e) => parse_spec(line@) == Err::<CommandView, ChatError>(e),
        },
{
    let cs = chars_of(line);
    if cs.len() == 0 {
        return Err(ChatError::EmptyInput);
    }
    if cs[0] != '#' {
        return Err(ChatError::MalformedCommand);
    }
    let ws = split_words(&cs);
    proof {
        lemma_words_from_nonempty(cs@, Seq::empty());
    }
    let ghost args = views(ws@).drop_first();
    assert(views(ws@).subrange(1, ws@.len() as int) =~= args);
    let n = ws.len() - 1;
    let name = &ws[0];
    if word_is(name, "#setname") {
        if n == 1 {
            Ok(Command::SetName(string_of(&ws[1])))
        } else {
            Err(ChatError::UsageError)
        }
    } else if word_is(name, "#login") {
        if n == 2 {
            Ok(Command::Login(string_of(&ws[1]), string_of(&ws[2])))
        } else {
            Err(ChatError::UsageError)
        }
    } else if word_is(name, "#logout") {
        if n == 0 {
            Ok(Command::Logout)
        } else {
            Err(ChatError::UsageError)
        }
    } else if word_is(name, "#changepass") {
        if n == 2 {
            Ok(Command::ChangePass(string_of(&ws[1]), string_of(&ws[2])))
        } else {
            Err(ChatError::UsageError)
        }
    } else if word_is(name, "#broadcast") || word_is(name, "#b") {
        if n >= 1 {
            Ok(Command::Broadcast(join_from(&ws, 1)))
        } else {
            Err(ChatError::UsageError)
        }
    } else if word_is(name, "#help") {
        if n == 0 {
            Ok(Command::Help)
        } else {
            Err(ChatError::UsageError)
        }
    } else {
        Err(ChatError::UnknownCommand)
    }
}

/// The state of one connection: the handle it is bound to (empty until a
/// `#setname` or `#login` succeeds) and the connection's identity.
#[derive(Debug)]
pub struct Session {
    pub name: String,
    pub conn: u64,
}

/// What one accepted command produces: the line written back to the client
/// (empty for none), the handle the session is now bound to, if that changed,
/// and the messages for other connections.
#[derive(Debug)]
pub struct Outcome {
    pub reply: String,
    pub bind: Option<String>,
    pub deliveries: Vec<Delivery>,
}

/// The reply to a successful `#setname`.
pub open spec fn setname_reply() -> Seq<char> {
    "nickname set, default credential is 123\n"@
}

/// The reply to a successful `#login`.
pub open spec fn login_reply() -> Seq<char> {
    "login succeeded\n"@
}

/// The reply to a successful `#logout`.
pub open spec fn logout_reply() -> Seq<char> {
    "logout succeeded\n"@
}

/// The reply to a successful `#changepass`.
pub open spec fn changepass_reply() -> Seq<char> {
    "credential changed, please re-login\n"@
}

/// The reply to `#help`: the list of commands.
pub open spec fn help_text() -> Seq<char> {
    "commands:\n  #setname <handle>\n  #login <handle> <credential>\n  #logout\n  #changepass <old credential> <new credential>\n  #broadcast <message> (or #b <message>)\n  #help\n"@
}

/// `o` holds the handle `b`, or neither holds one.
pub open spec fn bind_is(o: Option<String>, b: Option<Seq<char>>) -> bool {
    match (o, b) {
        (Some(x), Some(y)) => x@ == y,
        (None, None) => true,
        _ => false,
    }
}

/// `r` answers the directory result `res`: on success the reply `reply`, the
/// binding `bind` and no deliveries; on failure the same error.
pub open spec fn answered(
    res: Result<(), ChatError>,
    r: Result<Outcome, ChatError>,
    reply: Seq<char>,
    bind: Option<Seq<char>>,
) -> bool {
    match res {
        Ok(_) => r is Ok && r->Ok_0.reply@ == reply && bind_is(r->Ok_0.bind, bind)
            && r->Ok_0.deliveries@.len() == 0,
        Err(e) => r == Err::<Outcome, ChatError>(e),
    }
}

/// Running `cmd` for the session bound to `name` on connection `conn` takes
/// the directory from `m0` to `m1` and answers `r`. A session bound to no
/// handle (`name` empty) cannot change a credential.
pub open spec fn dispatched(
    m0: Users,
    m1: Users,
    name: Seq<char>,
    conn: u64,
    cmd: CommandView,
    r: Result<Outcome, ChatError>,
) -> bool {
    match cmd {
        CommandView::SetName(h) => {
            let (m, res) = register_spec(m0, h, default_pass());
            m1 == m && answered(res, r, setname_reply(), Some(h))
        },
        CommandView::Login(h, c) => {
            let (m, res) = authenticate_spec(m0, h, c, conn);
            m1 == m && answered(res, r, login_reply(), Some(h))
        },
        CommandView::Logout => {
            let (m, res) = deauthenticate_spec(m0, name);
            m1 == m && answered(res, r, logout_reply(), None)
        },
        CommandView::ChangePass(o, n) => {
            if name.len() == 0 {
                m1 == m0 && r == Err::<Outcome, ChatError>(ChatError::NotLoggedIn)
            } else {
                let (m, res) = change_credential_spec(m0, name, o, n);
                m1 == m && answered(res, r, changepass_reply(), None)
            }
        },
        CommandView::Broadcast(msg) => {
            &&& m1 == m0
            &&& r is Ok
            &&& r->Ok_0.reply@.len() == 0
            &&& r->Ok_0.bind is None
            &&& is_fanout(m0, conn, broadcast_text(name, msg), r->Ok_0.deliveries@)
        },
        CommandView::Help => m1 == m0 && answered(Ok(()), r, help_text(), None),
    }
}

/// Registers `handle` with the default credential.
pub fn set_name(dir: &mut Directory, handle: &String) -> (r: Result<(), ChatError>)
    requires
        old(dir).wf(),
    ensures
        final(dir).wf(),
        (final(dir)@, r) == register_spec(old(dir)@, handle@, default_pass()),
{
    let cred = String::from_str("123");
    dir.register(handle, &cred)
}

/// Logs `handle` in with `cred` on the connection `conn`.
pub fn login(dir: &mut Directory, handle: &String, cred: &String, conn: u64) -> (r: Result<(), ChatError>)
    requires
        old(dir).wf(),
    ensures
        final(dir).wf(),
        (final(dir)@, r) == authenticate_spec(old(dir)@, handle@, cred@, conn),
{
    dir.authenticate(handle, cred, conn)
}

/// Changes the credential of the session's handle `name` from `old_cred` to
/// `new_cred`; the handle must log in again.
pub fn change_pass(dir: &mut Directory, name: &String, old_cred: &String, new_cred: &String) -> (r:
    Result<(), ChatError>)
    requires
        old(dir).wf(),
    ensures
        final(dir).wf(),
        (final(dir)@, r) == change_credential_spec(old(dir)@, name@, old_cred@, new_cred@),
{
    dir.change_credential(name, old_cred, new_cred)
}

/// The outcome of a directory operation: `reply` and `bind` on success, the
/// same error on failure.
fn done(res: Result<(), ChatError>, reply: String, bind: Option<String>) -> (r: Result<Outcome, ChatError>)
    ensures
        match res {
            Ok(_) => r is Ok && r->Ok_0.reply@ == reply@ && r->Ok_0.bind == bind
                && r->Ok_0.deliveries@.len() == 0,
            Err(e) => r == Err::<Outcome, ChatError>(e),
        },
{
    match res {
        Ok(()) => Ok(Outcome { reply, bind, deliveries: Vec::new() }),
        Err(e) => Err(e),
    }
}

/// Runs `cmd` for `session` against the directory.
pub fn execute(dir: &mut Directory, session: &Session, cmd: Command) -> (r: Result<Outcome, ChatError>)
    requires
        old(dir).wf(),
    ensures
        final(dir).wf(),
        dispatched(old(dir)@, final(dir)@, session.name@, session.conn, cmd@, r),
{
    match cmd {
        Command::SetName(h) => {
            let res = set_name(dir, &h);
            done(res, String::from_str("nickname set, default credential is 123\n"), Some(h))
        },
        Command::Login(h, c) => {
            let res = login(dir, &h, &c, session.conn);
            done(res, String::from_str("login succeeded\n"), Some(h))
        },
        Command::Logout => {
            let res = dir.deauthenticate(&session.name);
            done(res, String::from_str("logout succeeded\n"), None)
        },
        Command::ChangePass(o, n) => {
            if session.name.as_str().is_empty() {
                return Err(ChatError::NotLoggedIn);
            }
            let res = change_pass(dir, &session.name, &o, &n);
            done(res, String::from_str("credential changed, please re-login\n"), None)
        },
        Command::Broadcast(msg) => {
            let deliveries = broadcast(dir, &session.name, session.conn, &msg);
            Ok(Outcome { reply: String::new(), bind: None, deliveries })
        },
        Command::Help => {
            let text = String::from_str(
                "commands:\n  #setname <handle>\n  #login <handle> <credential>\n  #logout\n  #changepass <old credential> <new credential>\n  #broadcast <message> (or #b <message>)\n  #help\n",
            );
            Ok(Outcome { reply: text, bind: None, deliveries: Vec::new() })
        },
    }
}

/// Parses the normalized line `line` and runs it for `session`: a line that
/// does not parse is answered with its error and changes nothing.
pub fn parse(dir: &mut Directory, session: &Session, line: &str) -> (r: Result<Outcome, ChatError>)
    requires
        old(dir).wf(),
    ensures
        final(dir).wf(),
        match parse_spec(line@) {
            Ok(cmd) => dispatched(old(dir)@, final(dir)@, session.name@, session.conn, cmd, r),
            Err(e) => r == Err::<Outcome, ChatError>(e) && final(dir)@ == old(dir)@,
        },
{
    match parse_command(line) {
        Ok(cmd) => execute(dir, session, cmd),
        Err(e) => Err(e),
    }
}

/// Handles one raw line read from the client of `session`: normalizes it,
/// runs it, and binds the session to the handle that a successful `#setname`
/// or `#login` names. The caller writes the reply or the error's message back
/// and hands out the deliveries.
pub fn handle_line(dir: &mut Directory, session: &mut Session, raw: &str) -> (r: Result<Outcome, ChatError>)
    requires
        old(dir).wf(),
    ensures
        final(dir).wf(),
        final(session).conn == old(session).conn,
        match parse_spec(normalized(raw@)) {
            Ok(cmd) => dispatched(old(dir)@, final(dir)@, old(session).name@, old(session).conn, cmd, r),
            Err(e) => r == Err::<Outcome, ChatError>(e) && final(dir)@ == old(dir)@,
        },
        final(session).name@ == match r {
            Ok(o) => match o.bind {
                Some(b) => b@,
                None => old(session).name@,
            },
            Err(_) => old(session).name@,
        },
{
    let line = normalize_line(raw);
    let r = parse(dir, session, line.as_str());
    match &r {
        Ok(o) => match &o.bind {
            Some(b) => {
                session.name = b.clone();
            },
            None => {},
        },
        Err(_) => {},
    }
    r
}

} // verus!

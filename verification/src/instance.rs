//! Single-instance forwarding.
//!
//! The first instance listens on a socket keyed by the display, and every later launch hands its
//! argument to it and exits. A launch connects first and binds only after that has failed; a socket
//! file that nobody answers is a leftover and goes before the bind; losing the bind to a
//! simultaneous launch falls back to one more connect.

use vstd::prelude::*;

use crate::message::{message_opt, Message, MessageView};
use crate::paths::str_opt;
use crate::text::{
    after_prefix, index_of, is_white, lemma_index_of_is, lemma_trim_tight, same, strip_prefix, trim,
    trimmed,
};

verus! {

/// The message that a line asks for: `open` and an argument, or `new-tab`. Any other line is none.
pub open spec fn command_of(line: Seq<char>) -> Option<MessageView> {
    match after_prefix(line, "open "@) {
        Some(arg) => if trimmed(arg).len() > 0 {
            Some(MessageView::OpenExternal(Some(trimmed(arg))))
        } else {
            None
        },
        None => if line == "new-tab"@ {
            Some(MessageView::OpenExternal(None))
        } else {
            None
        },
    }
}

/// See [`command_of`].
pub fn parse_command(line: &str) -> (r: Option<Message>)
    ensures
        message_opt(r) == command_of(line@),
{
    match strip_prefix(line, "open ") {
        Some(arg) => {
            let arg = trim(arg.as_str());
            if arg.as_str().is_empty() {
                None
            } else {
                Some(Message::OpenExternal(Some(arg)))
            }
        },
        None => if same(line, "new-tab") {
            Some(Message::OpenExternal(None))
        } else {
            None
        },
    }
}

/// The message that a line from the socket asks for, its line end and the white space around it
/// aside.
pub fn read_command(line: &str) -> (r: Option<Message>)
    ensures
        message_opt(r) == command_of(trimmed(line@)),
{
    let line = trim(line);
    parse_command(line.as_str())
}

/// The line that a launch sends: its argument, as the absolute path where it is a file, or that
/// there is none.
pub open spec fn command_text(arg: Option<Seq<char>>, absolute: Option<Seq<char>>) -> Seq<char> {
    match arg {
        Some(a) => "open "@ + (match absolute {
            Some(p) => p,
            None => a,
        }) + seq!['\n'],
        None => "new-tab"@ + seq!['\n'],
    }
}

/// See [`command_text`]. `absolute` is the path that the argument names, where it is an existing
/// file: the instance's directory differs, so it must travel absolute.
pub fn launch_command(arg: Option<&str>, absolute: Option<&str>) -> (r: String)
    ensures
        r@ == command_text(str_opt(arg), str_opt(absolute)),
{
    let mut out = match arg {
        Some(a) => {
            let mut out = "open ".to_owned();
            match absolute {
                Some(p) => out.append(p),
                None => out.append(a),
            }
            out
        },
        None => "new-tab".to_owned(),
    };
    out.push('\n');
    assert(out@ =~= command_text(str_opt(arg), str_opt(absolute)));
    out
}

/// The socket of the instance on a display.
pub open spec fn socket_of(display: Option<Seq<char>>) -> Seq<char> {
    match display {
        Some(d) if d.len() > 0 => "/tmp/cce-browser-"@ + d + ".sock"@,
        _ => "/tmp/cce-browser.sock"@,
    }
}

/// See [`socket_of`].
pub fn socket_path(display: Option<&str>) -> (r: String)
    ensures
        r@ == socket_of(str_opt(display)),
{
    match display {
        Some(d) if !d.is_empty() => {
            let mut out = "/tmp/cce-browser-".to_owned();
            out.append(d);
            out.append(".sock");
            out
        },
        _ => "/tmp/cce-browser.sock".to_owned(),
    }
}

/// What a launch hands over: the absolute path where its argument is a file, and else the argument.
pub open spec fn handed_over(arg: Seq<char>, absolute: Option<Seq<char>>) -> Seq<char> {
    match absolute {
        Some(p) => p,
        None => arg,
    }
}

/// The line that the running instance reads of what a launch sent, up to the first line end and with
/// it, says what the launch asked.
pub proof fn launches_arrive(arg: Seq<char>, absolute: Option<Seq<char>>)
    requires
        handed_over(arg, absolute).len() > 0,
        !is_white(handed_over(arg, absolute)[0]),
        !is_white(handed_over(arg, absolute).last()),
        !handed_over(arg, absolute).contains('\n'),
    ensures
        ({
            let sent = command_text(Some(arg), absolute);
            command_of(trimmed(first_line(sent))) == Some(
                MessageView::OpenExternal(Some(handed_over(arg, absolute))),
            )
        }),
        command_of(trimmed(first_line(command_text(None, absolute)))) == Some(
            MessageView::OpenExternal(None),
        ),
{
    reveal_strlit("open ");
    reveal_strlit("new-tab");
    let sent = handed_over(arg, absolute);
    let line = "open "@ + sent;
    assert(command_text(Some(arg), absolute) =~= line.push('\n'));
    assert forall|j: int| 0 <= j < line.len() implies line[j] != '\n' by {
        if j >= 5 {
            assert(line[j] == sent[j - 5]);
            assert(sent.contains(sent[j - 5]));
        }
    }
    lemma_first_line_whole(line);
    lemma_trim_newline(line);
    assert(line.take(5) =~= "open "@);
    assert("open "@.is_prefix_of(line));
    assert(line.skip(5) =~= sent);
    lemma_trim_tight(sent);
    assert(command_text(None, absolute) =~= "new-tab"@.push('\n'));
    lemma_first_line_whole("new-tab"@);
    lemma_trim_newline("new-tab"@);
    if "open "@.is_prefix_of("new-tab"@) {
        assert("new-tab"@.take(5)[0] == 'o');
    }
}

/// What a reader of one line takes of a text: everything up to the first line end and with it.
pub open spec fn first_line(s: Seq<char>) -> Seq<char> {
    let k = index_of(s, '\n');
    if k < s.len() {
        s.take(k + 1)
    } else {
        s
    }
}

proof fn lemma_first_line_whole(line: Seq<char>)
    requires
        forall|j: int| 0 <= j < line.len() ==> line[j] != '\n',
    ensures
        first_line(line.push('\n')) == line.push('\n'),
{
    let t = line.push('\n');
    lemma_index_of_is(t, '\n', line.len() as int);
    assert(t.take(line.len() as int + 1) =~= t);
}

proof fn lemma_trim_newline(line: Seq<char>)
    requires
        line.len() > 0,
        !is_white(line[0]),
        !is_white(line.last()),
    ensures
        trimmed(line.push('\n')) == line,
{
    let t = line.push('\n');
    assert(t[0] == line[0]);
    assert(crate::text::trim_start(t) == t);
    assert(t.drop_last() =~= line);
    assert(crate::text::trim_end(t) == crate::text::trim_end(line));
}

// ---------------------------------------------------------------------------------------------
// Claiming the socket
// ---------------------------------------------------------------------------------------------

/// How far a launch has come.
#[derive(Clone, Copy, Debug, PartialEq, Eq, Structural)]
pub enum Claim {
    /// Asking whether an instance answers.
    Asking,
    /// Nobody answered: taking the socket.
    Binding,
    /// The bind was lost: asking once more.
    AskingAgain,
    /// A running instance took the launch.
    Forwarded,
    /// This process is the instance.
    Claimed,
    /// Neither: the launch goes on by itself.
    Standalone,
}

/// What a launch is to do next.
#[derive(Clone, Copy, Debug, PartialEq, Eq, Structural)]
pub enum ClaimAction {
    /// Connect, send the command, and wait for the answer.
    Forward,
    /// Remove a leftover socket file, and bind.
    Bind,
    /// Keep the listener, and start.
    Listen,
    /// Exit.
    Exit,
    /// Start without a listener.
    Start,
}

impl Claim {
    /// What is to be done at a stage.
    pub fn action(self) -> (r: ClaimAction)
        ensures
            r == (match self {
                Claim::Asking => ClaimAction::Forward,
                Claim::Binding => ClaimAction::Bind,
                Claim::AskingAgain => ClaimAction::Forward,
                Claim::Forwarded => ClaimAction::Exit,
                Claim::Claimed => ClaimAction::Listen,
                Claim::Standalone => ClaimAction::Start,
            }),
    {
        match self {
            Claim::Asking => ClaimAction::Forward,
            Claim::Binding => ClaimAction::Bind,
            Claim::AskingAgain => ClaimAction::Forward,
            Claim::Forwarded => ClaimAction::Exit,
            Claim::Claimed => ClaimAction::Listen,
            Claim::Standalone => ClaimAction::Start,
        }
    }

    /// The stage after what was to be done worked, or did not.
    pub open spec fn after(self, worked: bool) -> Claim {
        match self {
            Claim::Asking => if worked {
                Claim::Forwarded
            } else {
                Claim::Binding
            },
            Claim::Binding => if worked {
                Claim::Claimed
            } else {
                Claim::AskingAgain
            },
            Claim::AskingAgain => if worked {
                Claim::Forwarded
            } else {
                Claim::Standalone
            },
            _ => self,
        }
    }

    /// See [`Claim::after`].
    pub fn next(self, worked: bool) -> (r: Claim)
        ensures
            r == self.after(worked),
    {
        match self {
            Claim::Asking => if worked {
                Claim::Forwarded
            } else {
                Claim::Binding
            },
            Claim::Binding => if worked {
                Claim::Claimed
            } else {
                Claim::AskingAgain
            },
            Claim::AskingAgain => if worked {
                Claim::Forwarded
            } else {
                Claim::Standalone
            },
            Claim::Forwarded => Claim::Forwarded,
            Claim::Claimed => Claim::Claimed,
            Claim::Standalone => Claim::Standalone,
        }
    }

    /// Whether the launch is settled: whether to exit is then known.
    pub open spec fn settled(self) -> bool {
        self is Forwarded || self is Claimed || self is Standalone
    }
}

/// A launch is settled after three attempts at most, whatever comes of them; it exits only where an
/// instance took it, and it binds only after a connect has failed.
pub proof fn claims_settle(a: bool, b: bool, c: bool)
    ensures
        Claim::Asking.after(a).after(b).after(c).settled(),
        Claim::Asking.after(a).after(b).after(c) is Forwarded <==> (a || (!b && c)),
        Claim::Asking.after(a).after(b).after(c) is Claimed <==> (!a && b),
{
}

} // verus!

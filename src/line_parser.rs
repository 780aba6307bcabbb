use vstd::prelude::*;
use vstd::string::*;

use crate::text::{
    chars_of, ends_with, find, find_from, has_prefix, has_suffix, slice_vec, starts_with,
    trim_line_end, trimmed_len,
};

verus! {

/// What one console line means to the supervisor.
#[derive(Debug)]
pub enum Signal {
    /// The server has finished booting.
    ReadyMarker,
    /// A message the server logged on its own behalf (not a chat line).
    SystemMessage(String),
    /// A player connected; the system message names them.
    PlayerJoined(String),
    /// A player disconnected; the system message names them.
    PlayerLeft(String),
    /// A player wrote in chat: their name and the message.
    PlayerChat(String, String),
    /// Nothing the supervisor reacts to.
    Unrecognized,
}

/// The mathematical form of a `Signal`.
pub enum SignalView {
    ReadyMarker,
    SystemMessage(Seq<char>),
    PlayerJoined(Seq<char>),
    PlayerLeft(Seq<char>),
    PlayerChat(Seq<char>, Seq<char>),
    Unrecognized,
}

impl View for Signal {
    type V = SignalView;

    open spec fn view(&self) -> SignalView {
        match self {
            Signal::ReadyMarker => SignalView::ReadyMarker,
            Signal::SystemMessage(m) => SignalView::SystemMessage(m@),
            Signal::PlayerJoined(n) => SignalView::PlayerJoined(n@),
            Signal::PlayerLeft(n) => SignalView::PlayerLeft(n@),
            Signal::PlayerChat(n, m) => SignalView::PlayerChat(n@, m@),
            Signal::Unrecognized => SignalView::Unrecognized,
        }
    }
}

/// A chat line: who wrote it, and what.
#[derive(Debug)]
pub struct PlayerMessage {
    pub player: String,
    pub message: String,
}

/// What separates a log line's header from the logged message.
pub open spec fn separator() -> Seq<char> {
    "]: "@
}

/// The log level that the header of a line the supervisor reads must carry.
pub open spec fn info_level() -> Seq<char> {
    "INFO"@
}

pub open spec fn ready_prefix() -> Seq<char> {
    "Done ("@
}

pub open spec fn ready_infix() -> Seq<char> {
    ")! For help, type"@
}

pub open spec fn joined_suffix() -> Seq<char> {
    " joined the game"@
}

pub open spec fn left_suffix() -> Seq<char> {
    " left the game"@
}

pub open spec fn chat_open() -> Seq<char> {
    "<"@
}

pub open spec fn chat_close() -> Seq<char> {
    "> "@
}

/// Where the logged message of `l` (a line without its terminator) starts: just after the first
/// separator, when the header before it carries the `INFO` level.
pub open spec fn message_start(l: Seq<char>) -> Option<int> {
    match find_from(l, separator(), 0) {
        Some(k) => match find_from(l, info_level(), 0) {
            Some(i) => if i + info_level().len() <= k {
                Some(k + separator().len())
            } else {
                None
            },
            None => None,
        },
        None => None,
    }
}

/// The message that `line` logs at the `INFO` level.
pub open spec fn logged_message(line: Seq<char>) -> Option<Seq<char>> {
    let l = trim_line_end(line);
    match message_start(l) {
        Some(s) => Some(l.subrange(s, l.len() as int)),
        None => None,
    }
}

/// The system message of `line`: a logged message that is not a chat line.
pub open spec fn system_message(line: Seq<char>) -> Option<Seq<char>> {
    match logged_message(line) {
        Some(m) => if starts_with(m, chat_open()) {
            None
        } else {
            Some(m)
        },
        None => None,
    }
}

/// `line` announces that the server is ready.
pub open spec fn is_ready_line(line: Seq<char>) -> bool {
    match system_message(line) {
        Some(m) => starts_with(m, ready_prefix()) && find_from(m, ready_infix(), 0) is Some,
        None => false,
    }
}

/// The player name that `m` holds in front of `suffix`: non-empty and without spaces.
pub open spec fn name_before(m: Seq<char>, suffix: Seq<char>) -> Option<Seq<char>> {
    if ends_with(m, suffix) && m.len() > suffix.len() {
        let name = m.subrange(0, m.len() - suffix.len());
        if find_from(name, seq![' '], 0) is None {
            Some(name)
        } else {
            None
        }
    } else {
        None
    }
}

/// The player a system message says has joined.
pub open spec fn joined_player(m: Seq<char>) -> Option<Seq<char>> {
    name_before(m, joined_suffix())
}

/// The player a system message says has left.
pub open spec fn left_player(m: Seq<char>) -> Option<Seq<char>> {
    name_before(m, left_suffix())
}

/// The author and text of a chat line: `<name> text`, with a non-empty name.
pub open spec fn chat_message(line: Seq<char>) -> Option<(Seq<char>, Seq<char>)> {
    match logged_message(line) {
        Some(m) => if starts_with(m, chat_open()) {
            match find_from(m, chat_close(), 0) {
                Some(j) => if j > 1 {
                    Some((m.subrange(1, j), m.subrange(j + 2, m.len() as int)))
                } else {
                    None
                },
                None => None,
            }
        } else {
            None
        },
        None => None,
    }
}

/// The meaning of a console line: readiness first, then the system-message shape refined into
/// joins and leaves, then chat.
pub open spec fn signal_of(line: Seq<char>) -> SignalView {
    if is_ready_line(line) {
        SignalView::ReadyMarker
    } else {
        match system_message(line) {
            Some(m) => match joined_player(m) {
                Some(n) => SignalView::PlayerJoined(n),
                None => match left_player(m) {
                    Some(n) => SignalView::PlayerLeft(n),
                    None => SignalView::SystemMessage(m),
                },
            },
            None => match chat_message(line) {
                Some((n, t)) => SignalView::PlayerChat(n, t),
                None => SignalView::Unrecognized,
            },
        }
    }
}

/// Where the logged message of `line` starts, and where the line ends without its terminator.
fn locate_message(line: &str) -> (r: Option<(usize, usize)>)
    ensures
        match r {
            Some((s, e)) => {
                &&& s <= e <= line@.len()
                &&& trim_line_end(line@) == line@.subrange(0, e as int)
                &&& message_start(trim_line_end(line@)) == Some(s as int)
            },
            None => logged_message(line@) is None,
        },
{
    let all = chars_of(line);
    let e = trimmed_len(&all);
    let l = slice_vec(&all, 0, e);
    let sep = chars_of("]: ");
    let info = chars_of("INFO");
    match find(&l, &sep, 0) {
        Some(k) => match find(&l, &info, 0) {
            Some(i) => {
                if i + info.len() <= k {
                    Some((k + sep.len(), e))
                } else {
                    None
                }
            },
            None => None,
        },
        None => None,
    }
}

/// The message that `line` logs at the `INFO` level, as characters, with the line.
fn logged_chars(line: &str) -> (r: Option<(Vec<char>, usize, usize)>)
    ensures
        match r {
            Some((m, s, e)) => {
                &&& logged_message(line@) == Some(m@)
                &&& s <= e <= line@.len()
                &&& m@ == line@.subrange(s as int, e as int)
            },
            None => logged_message(line@) is None,
        },
{
    match locate_message(line) {
        Some((s, e)) => {
            let all = chars_of(line);
            let m = slice_vec(&all, s, e);
            assert(m@ =~= line@.subrange(0, e as int).subrange(s as int, e as int));
            Some((m, s, e))
        },
        None => None,
    }
}

/// The system message that `line` logs, if it logs one.
pub fn parse_system_msg(line: &str) -> (r: Option<String>)
    ensures
        match r {
            Some(m) => system_message(line@) == Some(m@),
            None => system_message(line@) is None,
        },
{
    match logged_chars(line) {
        Some((m, s, e)) => {
            if has_prefix(&m, &chars_of("<")) {
                None
            } else {
                Some(String::from_str(line.substring_char(s, e)))
            }
        },
        None => None,
    }
}

/// Whether `line` announces that the server is ready.
pub fn parse_server_started(line: &str) -> (r: bool)
    ensures
        r == is_ready_line(line@),
{
    match logged_chars(line) {
        Some((m, s, e)) => {
            if has_prefix(&m, &chars_of("<")) {
                false
            } else {
                has_prefix(&m, &chars_of("Done (")) && find(
                    &m,
                    &chars_of(")! For help, type"),
                    0,
                ).is_some()
            }
        },
        None => false,
    }
}

/// The name in front of `suffix` in `msg`, when it is a player name.
fn name_before_suffix(msg: &str, suffix: &str) -> (r: Option<String>)
    ensures
        match r {
            Some(n) => name_before(msg@, suffix@) == Some(n@),
            None => name_before(msg@, suffix@) is None,
        },
{
    let m = chars_of(msg);
    let sv = chars_of(suffix);
    if has_suffix(&m, &sv) && m.len() > sv.len() {
        let end = m.len() - sv.len();
        let name = slice_vec(&m, 0, end);
        let space = chars_of(" ");
        proof {
            reveal_strlit(" ");
            assert(space@ =~= seq![' ']);
        }
        if find(&name, &space, 0).is_none() {
            Some(String::from_str(msg.substring_char(0, end)))
        } else {
            None
        }
    } else {
        None
    }
}

/// The player that a system message says has joined.
pub fn parse_player_joined(msg: &str) -> (r: Option<String>)
    ensures
        match r {
            Some(n) => joined_player(msg@) == Some(n@),
            None => joined_player(msg@) is None,
        },
{
    name_before_suffix(msg, " joined the game")
}

/// The player that a system message says has left.
pub fn parse_player_left(msg: &str) -> (r: Option<String>)
    ensures
        match r {
            Some(n) => left_player(msg@) == Some(n@),
            None => left_player(msg@) is None,
        },
{
    name_before_suffix(msg, " left the game")
}

/// The author and text of a chat line.
pub fn parse_player_msg(line: &str) -> (r: Option<PlayerMessage>)
    ensures
        match r {
            Some(pm) => chat_message(line@) == Some((pm.player@, pm.message@)),
            None => chat_message(line@) is None,
        },
{
    match logged_chars(line) {
        Some((m, s, e)) => {
            if !has_prefix(&m, &chars_of("<")) {
                return None;
            }
            match find(&m, &chars_of("> "), 0) {
                Some(j) => {
                    if j > 1 {
                        proof {
                            reveal_strlit("> ");
                        }
                        let player = String::from_str(line.substring_char(s + 1, s + j));
                        let message = String::from_str(line.substring_char(s + j + 2, e));
                        assert(player@ =~= m@.subrange(1, j as int));
                        assert(message@ =~= m@.subrange(j + 2, m@.len() as int));
                        Some(PlayerMessage { player, message })
                    } else {
                        None
                    }
                },
                None => None,
            }
        },
        None => None,
    }
}

/// Classifies one console line. The result depends on the text of the line alone.
pub fn classify(line: &str) -> (r: Signal)
    ensures
        r@ == signal_of(line@),
{
    if parse_server_started(line) {
        return Signal::ReadyMarker;
    }
    match parse_system_msg(line) {
        Some(m) => match parse_player_joined(m.as_str()) {
            Some(n) => Signal::PlayerJoined(n),
            None => match parse_player_left(m.as_str()) {
                Some(n) => Signal::PlayerLeft(n),
                None => Signal::SystemMessage(m),
            },
        },
        None => match parse_player_msg(line) {
            Some(pm) => Signal::PlayerChat(pm.player, pm.message),
            None => Signal::Unrecognized,
        },
    }
}

/// Classification is a function of the line's text: the same text, fed any number of times,
/// gets the same signal.
pub proof fn law_classify_is_pure(a: Seq<char>, b: Seq<char>)
    requires
        a == b,
    ensures
        signal_of(a) == signal_of(b),
{
}

} // verus!

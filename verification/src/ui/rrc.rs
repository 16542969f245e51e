//! What is typed into a chat room, and how its messages are shown.
use vstd::prelude::*;
use vstd::slice::*;
use vstd::string::*;

use crate::browser::{text_view, text_views};
use crate::hexadecimal::{decode_hash, encode_hex, hex_bytes, hex_text, is_hash_text};
use crate::models::{RrcMessageView, RrcRoomView, RrcUserView};
use crate::text::{
    chars_of, decimal, equals, find_char, find_in, is_white_space, lemma_find_char, lower, lower_of,
    push_decimal, same_text, skip_while, string_of, trim, trim_chars, trim_text, white_space,
};
use crate::ui::glyphs::{all_joined, graphemes_in, graphemes_of};

verus! {

/// What a user of a chat asks for.
#[derive(Debug, PartialEq, Eq)]
pub enum Action {
    Clear(String),
    Register(String),
    Rooms,
    Disconnect,
    Join(String, Option<String>),
    Part(String),
    Nick(String),
    Users(String),
    Ping,
    Send(String, String, bool),
}

pub enum ActionModel {
    Clear(Seq<char>),
    Register(Seq<char>),
    Rooms,
    Disconnect,
    Join(Seq<char>, Option<Seq<char>>),
    Part(Seq<char>),
    Nick(Seq<char>),
    Users(Seq<char>),
    Ping,
    Send(Seq<char>, Seq<char>, bool),
}

impl View for Action {
    type V = ActionModel;

    open spec fn view(&self) -> ActionModel {
        match *self {
            Action::Clear(room) => ActionModel::Clear(room@),
            Action::Register(room) => ActionModel::Register(room@),
            Action::Rooms => ActionModel::Rooms,
            Action::Disconnect => ActionModel::Disconnect,
            Action::Join(room, key) => ActionModel::Join(room@, text_view(key)),
            Action::Part(room) => ActionModel::Part(room@),
            Action::Nick(nick) => ActionModel::Nick(nick@),
            Action::Users(room) => ActionModel::Users(room@),
            Action::Ping => ActionModel::Ping,
            Action::Send(room, body, action) => ActionModel::Send(room@, body@, action),
        }
    }
}

/// What stands before the first space, and what stands behind it.
pub open spec fn first_word(s: Seq<char>) -> (Seq<char>, Seq<char>) {
    let n = find_char(s, ' ') as int;
    if n < s.len() {
        (s.take(n), s.skip(n + 1))
    } else {
        (s, Seq::empty())
    }
}

pub open spec fn or_else(s: Seq<char>, other: Seq<char>) -> Seq<char> {
    if s.len() == 0 {
        other
    } else {
        s
    }
}

/// The name of a room without its mark, in lower case.
pub open spec fn room_name(s: Seq<char>) -> Seq<char> {
    lower(skip_while(s, equals('#')))
}

pub open spec fn has_white_space(s: Seq<char>) -> bool {
    exists|i: int| 0 <= i < s.len() && is_white_space(#[trigger] s[i])
}

pub open spec fn register_usage() -> Seq<char> {
    "Usage: /register [room]; select a room first if omitted"@
}

pub open spec fn command_usage() -> Seq<char> {
    "Commands: /join room [key], /register [room], /part [room], /nick name, /rooms, /users [room], /ping, /disconnect, /me text"@
}

/// What a line of input asks for, in a room.
pub open spec fn parsed(input: Seq<char>, room: Seq<char>) -> Result<ActionModel, Seq<char>> {
    let text = trim(input);
    let command = first_word(text).0;
    let arg = trim(first_word(text).1);
    if command == "/register"@ {
        let name = room_name(or_else(arg, room));
        if name.len() == 0 || has_white_space(name) {
            Err(register_usage())
        } else {
            Ok(ActionModel::Register(name))
        }
    } else if command == "/rooms"@ {
        Ok(ActionModel::Rooms)
    } else if command == "/disconnect"@ {
        Ok(ActionModel::Disconnect)
    } else if command == "/ping"@ {
        Ok(ActionModel::Ping)
    } else if command == "/join"@ && arg.len() > 0 {
        let key = trim(first_word(arg).1);
        Ok(
            ActionModel::Join(
                room_name(first_word(arg).0),
                if key.len() > 0 {
                    Some(key)
                } else {
                    None
                },
            ),
        )
    } else if command == "/part"@ {
        Ok(ActionModel::Part(or_else(arg, room)))
    } else if command == "/users"@ {
        Ok(ActionModel::Users(or_else(arg, room)))
    } else if command == "/nick"@ && arg.len() > 0 {
        Ok(ActionModel::Nick(arg))
    } else if command == "/me"@ && arg.len() > 0 && room.len() > 0 {
        Ok(ActionModel::Send(room, arg, true))
    } else if text.len() > 0 && text[0] == '/' {
        Err(command_usage())
    } else if text.len() == 0 {
        Err("Enter a message or command"@)
    } else if room.len() == 0 {
        Err("Join a room first"@)
    } else {
        Ok(ActionModel::Send(room, text, false))
    }
}

fn split_word(s: &[char]) -> (r: (&[char], &[char]))
    ensures
        (r.0@, r.1@) == first_word(s@),
{
    proof {
        lemma_find_char(s@, ' ');
    }
    let n: usize = find_in(s, ' ');
    if n < s.len() {
        let head = slice_subrange(s, 0, n);
        let tail = slice_subrange(s, n + 1, s.len());
        assert(head@ =~= s@.take(n as int));
        assert(tail@ =~= s@.skip(n + 1));
        (head, tail)
    } else {
        let none = slice_subrange(s, n, n);
        assert(none@ =~= Seq::<char>::empty());
        (s, none)
    }
}

fn read_room_name(s: &[char]) -> (r: Vec<char>)
    ensures
        r@ == room_name(s@),
{
    let mut from: usize = 0;
    assert(s@.skip(0) =~= s@);
    while from < s.len() && s[from] == '#'
        invariant
            from <= s@.len(),
            skip_while(s@, equals('#')) == skip_while(s@.skip(from as int), equals('#')),
        decreases s@.len() - from,
    {
        assert(s@.skip(from as int).drop_first() =~= s@.skip(from + 1));
        from = from + 1;
    }
    let bare = slice_subrange(s, from, s.len());
    assert(bare@ =~= s@.skip(from as int));
    lower_of(bare)
}

fn any_white_space(s: &[char]) -> (r: bool)
    ensures
        r == has_white_space(s@),
{
    for i in 0..s.len()
        invariant
            forall|j: int| 0 <= j < i ==> !is_white_space(#[trigger] s@[j]),
    {
        if white_space(s[i]) {
            assert(is_white_space(s@[i as int]));
            return true;
        }
    }
    false
}

/// Reads a line of input, typed in a room.
pub fn parse(text: &str, room: &str) -> (r: Result<Action, String>)
    ensures
        r is Ok == parsed(text@, room@) is Ok,
        r is Ok ==> r->Ok_0@ == parsed(text@, room@)->Ok_0,
        r is Err ==> r->Err_0@ == parsed(text@, room@)->Err_0,
{
    let all = chars_of(text);
    let line = trim_chars(&all);
    let (head, tail) = split_word(line);
    let arg = trim_chars(tail);
    let here = chars_of(room);
    let word = string_of(head);
    let command = word.as_str();
    if same_text(command, "/register") {
        let name = if arg.len() == 0 {
            read_room_name(&here)
        } else {
            read_room_name(arg)
        };
        if name.len() == 0 || any_white_space(&name) {
            return Err("Usage: /register [room]; select a room first if omitted".to_string());
        }
        return Ok(Action::Register(string_of(&name)));
    }
    if same_text(command, "/rooms") {
        return Ok(Action::Rooms);
    }
    if same_text(command, "/disconnect") {
        return Ok(Action::Disconnect);
    }
    if same_text(command, "/ping") {
        return Ok(Action::Ping);
    }
    if same_text(command, "/join") && arg.len() > 0 {
        let (name, rest) = split_word(arg);
        let key = trim_chars(rest);
        let room = read_room_name(name);
        return Ok(
            Action::Join(
                string_of(&room),
                if key.len() > 0 {
                    Some(string_of(key))
                } else {
                    None
                },
            ),
        );
    }
    if same_text(command, "/part") {
        return Ok(
            Action::Part(
                if arg.len() == 0 {
                    room.to_string()
                } else {
                    string_of(arg)
                },
            ),
        );
    }
    if same_text(command, "/users") {
        return Ok(
            Action::Users(
                if arg.len() == 0 {
                    room.to_string()
                } else {
                    string_of(arg)
                },
            ),
        );
    }
    if same_text(command, "/nick") && arg.len() > 0 {
        return Ok(Action::Nick(string_of(arg)));
    }
    if same_text(command, "/me") && arg.len() > 0 && here.len() > 0 {
        return Ok(Action::Send(room.to_string(), string_of(arg), true));
    }
    if line.len() > 0 && line[0] == '/' {
        return Err(
            "Commands: /join room [key], /register [room], /part [room], /nick name, /rooms, /users [room], /ping, /disconnect, /me text".to_string(),
        );
    }
    if line.len() == 0 {
        return Err("Enter a message or command".to_string());
    }
    if here.len() == 0 {
        return Err("Join a room first".to_string());
    }
    Ok(Action::Send(room.to_string(), string_of(line), false))
}

/// The identity that a message names as its source, whose hub address decides on
/// whether the hub itself speaks.
pub fn source_identity(message: &RrcMessageView) -> (r: Option<[u8; 16]>)
    ensures
        r.is_some() == is_hash_text(message.source_hash@),
        r.is_some() ==> r.unwrap()@ == hex_bytes(message.source_hash@),
{
    decode_hash(message.source_hash.as_str())
}

/// Whether the hub itself speaks: where there is no source, where the source is the
/// hub, or where the hub is reached at an address of the source.
pub open spec fn from_server(message: RrcMessageView, hub_address: Option<[u8; 16]>) -> bool {
    ||| message.source_hash@.len() == 0
    ||| message.source_hash@ == message.hub_hash@
    ||| is_hash_text(message.source_hash@) && hub_address.is_some() && hex_text(
        hub_address.unwrap()@,
    ) == message.hub_hash@
}

/// `hub_address` is the hub address of the identity that the message names as its
/// source.
pub fn server_message(message: &RrcMessageView, hub_address: &Option<[u8; 16]>) -> (r: bool)
    ensures
        r == from_server(*message, *hub_address),
{
    if message.source_hash.as_str().is_empty() || same_text(
        message.source_hash.as_str(),
        message.hub_hash.as_str(),
    ) {
        return true;
    }
    match hub_address {
        Some(address) => {
            let text = encode_hex(address);
            decode_hash(message.source_hash.as_str()).is_some() && same_text(
                text.as_str(),
                message.hub_hash.as_str(),
            )
        },
        None => false,
    }
}

/// A name of many clusters, shortened to its beginning and its end.
pub open spec fn short_name(parts: Seq<Seq<char>>) -> Seq<char> {
    if parts.len() > 15 {
        all_joined(parts.take(8)) + "..."@ + all_joined(parts.skip(parts.len() - 4))
    } else {
        all_joined(parts)
    }
}

fn push_parts(out: &mut String, parts: &Vec<String>, from: usize, to: usize)
    requires
        from <= to <= parts@.len(),
    ensures
        final(out)@ == old(out)@ + all_joined(
            text_views(parts@).subrange(from as int, to as int),
        ),
{
    let ghost texts = text_views(parts@);
    let mut i: usize = from;
    assert(texts.subrange(from as int, from as int) =~= Seq::empty());
    assert(out@ =~= out@ + all_joined(texts.subrange(from as int, from as int)));
    while i < to
        invariant
            from <= i <= to <= parts@.len(),
            texts == text_views(parts@),
            out@ == old(out)@ + all_joined(texts.subrange(from as int, i as int)),
        decreases to - i,
    {
        proof {
            assert(texts.subrange(from as int, i + 1).drop_last() =~= texts.subrange(
                from as int,
                i as int,
            ));
            assert(texts.subrange(from as int, i + 1).last() == parts@[i as int]@);
        }
        out.append(parts[i].as_str());
        assert(out@ =~= old(out)@ + all_joined(texts.subrange(from as int, i + 1)));
        i = i + 1;
    }
}

/// Shortens a name, given its clusters.
pub fn shortened(parts: &Vec<String>) -> (r: String)
    ensures
        r@ == short_name(text_views(parts@)),
{
    let count: usize = parts.len();
    let ghost texts = text_views(parts@);
    let mut out = String::new();
    if count > 15 {
        push_parts(&mut out, parts, 0, 8);
        out.append("...");
        push_parts(&mut out, parts, count - 4, count);
        proof {
            assert(texts.subrange(0, 8) =~= texts.take(8));
            assert(texts.subrange(count - 4, count as int) =~= texts.skip(texts.len() - 4));
            assert(out@ =~= short_name(texts));
        }
    } else {
        push_parts(&mut out, parts, 0, count);
        proof {
            assert(texts.subrange(0, count as int) =~= texts);
            assert(out@ =~= short_name(texts));
        }
    }
    out
}

/// The name under which the sender of a message is shown.
pub open spec fn sender(message: RrcMessageView) -> Seq<char> {
    match message.nick {
        Some(nick) => if trim(nick@).len() > 0 {
            nick@
        } else {
            message.source_hash@
        },
        None => message.source_hash@,
    }
}

/// A message as a line: what the hub says goes without a name.
pub open spec fn chat_line(message: RrcMessageView, hub_address: Option<[u8; 16]>) -> Seq<char> {
    if from_server(message, hub_address) {
        message.body@
    } else {
        short_name(graphemes_in(sender(message))) + ": "@ + message.body@
    }
}

pub fn message_line(message: &RrcMessageView, hub_address: &Option<[u8; 16]>) -> (r: String)
    ensures
        r@ == chat_line(*message, *hub_address),
{
    if server_message(message, hub_address) {
        return message.body.clone();
    }
    let name = match &message.nick {
        Some(nick) => if trim_text(nick.as_str()).as_str().is_empty() {
            message.source_hash.clone()
        } else {
            nick.clone()
        },
        None => message.source_hash.clone(),
    };
    let parts = graphemes_of(name.as_str());
    let mut line = shortened(&parts);
    line.append(": ");
    line.append(message.body.as_str());
    line
}

/// The answer to a request of a chat.
#[derive(Debug)]
pub enum Answer {
    Cleared(String),
    Disconnected,
    Status(String),
    Rooms(Vec<String>),
    Joined(String),
}

/// What the service said to a request.
#[derive(Debug)]
pub enum ServiceReply {
    Done,
    Rooms(Vec<RrcRoomView>),
    Users(Vec<RrcUserView>),
    Milliseconds(u64),
}

pub open spec fn room_names(rooms: Seq<RrcRoomView>) -> Seq<Seq<char>> {
    rooms.map_values(|room: RrcRoomView| room.name@)
}

pub open spec fn user_name(user: RrcUserView) -> Seq<char> {
    match user.nick {
        Some(nick) => nick@,
        None => user.identity@,
    }
}

/// The names of users, one after the other.
pub open spec fn user_list(users: Seq<RrcUserView>) -> Seq<char>
    decreases users.len(),
{
    if users.len() == 0 {
        Seq::empty()
    } else if users.len() == 1 {
        user_name(users[0])
    } else {
        user_list(users.drop_last()) + ", "@ + user_name(users.last())
    }
}

pub open spec fn is_answer(action: Action, reply: ServiceReply, answer: Answer) -> bool {
    match action {
        Action::Clear(room) => answer == Answer::Cleared(room),
        Action::Register(_) => answer matches Answer::Status(text) && text@
            == "Registration requested; see server reply"@,
        Action::Rooms => match reply {
            ServiceReply::Rooms(rooms) => answer matches Answer::Rooms(names) && text_views(names@)
                == room_names(rooms@),
            _ => answer matches Answer::Rooms(names) && names@.len() == 0,
        },
        Action::Disconnect => answer is Disconnected,
        Action::Join(room, _) => answer == Answer::Joined(room),
        Action::Part(_) => answer matches Answer::Status(text) && text@ == "Part requested"@,
        Action::Nick(_) => answer matches Answer::Status(text) && text@ == "Nickname updated"@,
        Action::Users(_) => match reply {
            ServiceReply::Users(users) => answer matches Answer::Status(text) && text@ == user_list(
                users@,
            ),
            _ => answer matches Answer::Status(text) && text@.len() == 0,
        },
        Action::Ping => match reply {
            ServiceReply::Milliseconds(ms) => answer matches Answer::Status(text) && text@
                == "Pong: "@ + decimal(ms as nat) + " ms"@,
            _ => answer matches Answer::Status(text) && text@ == "Pong: "@ + decimal(0) + " ms"@,
        },
        Action::Send(_, _, _) => answer matches Answer::Status(text) && text@ == "Message sent"@,
    }
}

fn list_users(users: &Vec<RrcUserView>) -> (r: String)
    ensures
        r@ == user_list(users@),
{
    let mut out = String::new();
    assert(out@ =~= user_list(users@.take(0)));
    for i in 0..users.len()
        invariant
            out@ == user_list(users@.take(i as int)),
    {
        assert(users@.take(i + 1).drop_last() =~= users@.take(i as int));
        if i > 0 {
            out.append(", ");
        }
        match &users[i].nick {
            Some(nick) => out.append(nick.as_str()),
            None => out.append(users[i].identity.as_str()),
        }
        proof {
            if i == 0 {
                assert(out@ =~= user_name(users@[0]));
            }
            assert(out@ =~= user_list(users@.take(i + 1)));
        }
    }
    assert(users@.take(users@.len() as int) =~= users@);
    out
}

fn pong(milliseconds: u64) -> (r: Answer)
    ensures
        r matches Answer::Status(text) && text@ == "Pong: "@ + decimal(milliseconds as nat)
            + " ms"@,
{
    let mut text = "Pong: ".to_string();
    push_decimal(&mut text, milliseconds);
    text.append(" ms");
    Answer::Status(text)
}

/// The answer to a request that was carried out.
pub fn answer_to(action: Action, reply: ServiceReply) -> (r: Answer)
    ensures
        is_answer(action, reply, r),
{
    match action {
        Action::Clear(room) => Answer::Cleared(room),
        Action::Register(_) => {
            Answer::Status("Registration requested; see server reply".to_string())
        },
        Action::Rooms => {
            let mut names: Vec<String> = Vec::new();
            if let ServiceReply::Rooms(rooms) = &reply {
                for i in 0..rooms.len()
                    invariant
                        names@.len() == i,
                        forall|j: int| 0 <= j < i ==> (#[trigger] names@[j])@ == rooms@[j].name@,
                {
                    names.push(rooms[i].name.clone());
                }
                assert(text_views(names@) =~= room_names(rooms@));
            }
            Answer::Rooms(names)
        },
        Action::Disconnect => Answer::Disconnected,
        Action::Join(room, _) => Answer::Joined(room),
        Action::Part(_) => Answer::Status("Part requested".to_string()),
        Action::Nick(_) => Answer::Status("Nickname updated".to_string()),
        Action::Users(_) => match &reply {
            ServiceReply::Users(users) => Answer::Status(list_users(users)),
            _ => Answer::Status(String::new()),
        },
        Action::Ping => match &reply {
            ServiceReply::Milliseconds(ms) => pong(*ms),
            _ => pong(0),
        },
        Action::Send(_, _, _) => Answer::Status("Message sent".to_string()),
    }
}

/// What does not begin with a slash is never taken for a command: it is sent as it
/// is, to the room that is open.
pub proof fn law_text_is_sent_to_the_room(input: Seq<char>, room: Seq<char>)
    requires
        trim(input).len() > 0,
        trim(input)[0] != '/',
        room.len() > 0,
    ensures
        parsed(input, room) == Ok::<ActionModel, Seq<char>>(
            ActionModel::Send(room, trim(input), false),
        ),
{
    let text = trim(input);
    let command = first_word(text).0;
    lemma_find_char(text, ' ');
    reveal_strlit("/register");
    reveal_strlit("/rooms");
    reveal_strlit("/disconnect");
    reveal_strlit("/ping");
    reveal_strlit("/join");
    reveal_strlit("/part");
    reveal_strlit("/users");
    reveal_strlit("/nick");
    reveal_strlit("/me");
    if command.len() > 0 {
        assert(command[0] == text[0]);
    }
}

/// Nothing is sent where no room is open, and an unknown command is never sent as
/// a message.
pub proof fn law_no_message_without_a_room(input: Seq<char>, room: Seq<char>)
    ensures
        parsed(input, room) matches Ok(ActionModel::Send(to, body, action)) ==> to == room
            && room.len() > 0 && body.len() > 0 && (!action ==> body[0] != '/'),
{
}

} // verus!

//! Laws of what is typed into a chat: each command does what it is named for, with
//! the words behind it.
use vstd::prelude::*;

use crate::hexadecimal::{hex_text, is_hash_text};
use crate::laws::words::{
    is_blank, is_trimmed, law_blank_is_trimmed_away, law_trim_drops_white_space,
};
use crate::models::{RrcMessageView, RrcRoomView, RrcUserView};
use crate::text::{
    decimal, equals, is_white_space, law_trim_keeps_trimmed, lemma_find_char, lemma_find_char_at,
    lower, lower_char, skip_while, trim,
};
use crate::ui::glyphs::{all_joined, graphemes_in};
use crate::ui::rrc::{
    chat_line, first_word, is_answer, parsed, sender, short_name, user_list, user_name, Action,
    ActionModel, Answer, ServiceReply,
};

verus! {

/// Whether a text is not empty and has no white space in it.
pub open spec fn is_word(s: Seq<char>) -> bool {
    s.len() > 0 && forall|i: int| 0 <= i < s.len() ==> !is_white_space(#[trigger] s[i])
}

/// Whether a text holds neither an upper-case letter nor a leading mark of a room.
pub open spec fn is_plain_room(s: Seq<char>) -> bool {
    is_word(s) && s[0] != '#' && forall|i: int|
        0 <= i < s.len() ==> !('A' <= #[trigger] s[i] <= 'Z')
}

/// What is said of the commands there are.
pub open spec fn command_words() -> Seq<char> {
    "Commands: /join room [key], /register [room], /part [room], /nick name, /rooms, /users [room], /ping, /disconnect, /me text"@
}

proof fn lemma_command_alone(command: Seq<char>)
    requires
        is_word(command),
    ensures
        trim(command) == command,
        first_word(command) == (command, Seq::<char>::empty()),
        trim(Seq::<char>::empty()) == Seq::<char>::empty(),
{
    law_trim_keeps_trimmed(command);
    assert(!is_white_space(command[0]) && !is_white_space(command[command.len() - 1]));
    lemma_find_char_at(command, ' ', command.len() as int);
    law_blank_is_trimmed_away(Seq::empty());
}

proof fn lemma_command_with(command: Seq<char>, arg: Seq<char>)
    requires
        is_word(command),
        is_trimmed(arg),
    ensures
        trim(command + seq![' '] + arg) == command + seq![' '] + arg,
        first_word(command + seq![' '] + arg) == (command, arg),
        trim(arg) == arg,
{
    let s = command + seq![' '] + arg;
    assert(s[0] == command[0]);
    assert(s.last() == arg.last());
    law_trim_keeps_trimmed(s);
    law_trim_keeps_trimmed(arg);
    assert forall|i: int| 0 <= i < command.len() implies s[i] != ' ' by {
        assert(s[i] == command[i]);
        assert(!is_white_space(command[i]));
    }
    assert(s[command.len() as int] == ' ');
    lemma_find_char_at(s, ' ', command.len() as int);
    assert(s.take(command.len() as int) =~= command);
    assert(s.skip(command.len() as int + 1) =~= arg);
}

proof fn lemma_commands()
    ensures
        is_word("/register"@),
        is_word("/rooms"@),
        is_word("/disconnect"@),
        is_word("/ping"@),
        is_word("/join"@),
        is_word("/part"@),
        is_word("/users"@),
        is_word("/nick"@),
        is_word("/me"@),
        "/register"@.len() == 9,
        "/rooms"@.len() == 6,
        "/disconnect"@.len() == 11,
        "/ping"@.len() == 5 && "/ping"@[1] == 'p' && "/ping"@[2] == 'i',
        "/join"@.len() == 5 && "/join"@[1] == 'j',
        "/part"@.len() == 5 && "/part"@[1] == 'p' && "/part"@[2] == 'a',
        "/users"@.len() == 6 && "/users"@[1] == 'u',
        "/rooms"@[1] == 'r',
        "/nick"@.len() == 5 && "/nick"@[1] == 'n',
        "/me"@.len() == 3,
        "/me"@[0] == '/',
        "/join"@[0] == '/',
        "/nick"@[0] == '/',
{
    reveal_strlit("/register");
    reveal_strlit("/rooms");
    reveal_strlit("/disconnect");
    reveal_strlit("/ping");
    reveal_strlit("/join");
    reveal_strlit("/part");
    reveal_strlit("/users");
    reveal_strlit("/nick");
    reveal_strlit("/me");
}

/// "/part" with the name of a room leaves that room and no other, whichever room
/// is open; only "/part" alone leaves the room that is open.
pub proof fn law_part_leaves_the_named_room(name: Seq<char>, open: Seq<char>)
    requires
        is_trimmed(name),
    ensures
        parsed("/part "@ + name, open) == Ok::<ActionModel, Seq<char>>(ActionModel::Part(name)),
        parsed("/part"@, open) == Ok::<ActionModel, Seq<char>>(ActionModel::Part(open)),
{
    lemma_commands();
    lemma_command_with("/part"@, name);
    lemma_command_alone("/part"@);
    reveal_strlit("/part ");
    reveal_strlit("/part");
    assert("/part "@ + name =~= "/part"@ + seq![' '] + name);
}

/// "/users" with the name of a room asks who is in that room, and alone who is in
/// the room that is open.
pub proof fn law_users_are_of_the_named_room(name: Seq<char>, open: Seq<char>)
    requires
        is_trimmed(name),
    ensures
        parsed("/users"@ + seq![' '] + name, open) == Ok::<ActionModel, Seq<char>>(
            ActionModel::Users(name),
        ),
        parsed("/users"@, open) == Ok::<ActionModel, Seq<char>>(ActionModel::Users(open)),
{
    lemma_commands();
    lemma_command_with("/users"@, name);
    lemma_command_alone("/users"@);
}

/// "/nick" takes what stands behind it as the new name, whichever room is open, and
/// alone changes nothing.
pub proof fn law_nick_takes_the_name(name: Seq<char>, open: Seq<char>)
    requires
        is_trimmed(name),
    ensures
        parsed("/nick"@ + seq![' '] + name, open) == Ok::<ActionModel, Seq<char>>(
            ActionModel::Nick(name),
        ),
        parsed("/nick"@, open) == Err::<ActionModel, Seq<char>>(command_words()),
{
    lemma_commands();
    lemma_command_with("/nick"@, name);
    lemma_command_alone("/nick"@);
}

/// "/me" sends what stands behind it as an action to the room that is open. Without
/// a room, or with nothing behind it, nothing is sent.
pub proof fn law_me_sends_an_action(body: Seq<char>, open: Seq<char>)
    requires
        is_trimmed(body),
    ensures
        open.len() > 0 ==> parsed("/me"@ + seq![' '] + body, open) == Ok::<
            ActionModel,
            Seq<char>,
        >(ActionModel::Send(open, body, true)),
        open.len() == 0 ==> parsed("/me"@ + seq![' '] + body, open) == Err::<
            ActionModel,
            Seq<char>,
        >(command_words()),
        parsed("/me"@, open) == Err::<ActionModel, Seq<char>>(command_words()),
{
    lemma_commands();
    lemma_command_with("/me"@, body);
    lemma_command_alone("/me"@);
    let s = "/me"@ + seq![' '] + body;
    assert(s[0] == "/me"@[0]);
}

/// The commands without arguments do what they are named for in every room, and
/// whatever stands behind them.
#[verifier::rlimit(50)]
pub proof fn law_plain_commands(rest: Seq<char>, open: Seq<char>)
    requires
        is_trimmed(rest),
    ensures
        parsed("/rooms"@, open) == Ok::<ActionModel, Seq<char>>(ActionModel::Rooms),
        parsed("/rooms"@ + seq![' '] + rest, open) == Ok::<ActionModel, Seq<char>>(
            ActionModel::Rooms,
        ),
        parsed("/ping"@, open) == Ok::<ActionModel, Seq<char>>(ActionModel::Ping),
        parsed("/ping"@ + seq![' '] + rest, open) == Ok::<ActionModel, Seq<char>>(
            ActionModel::Ping,
        ),
        parsed("/disconnect"@, open) == Ok::<ActionModel, Seq<char>>(ActionModel::Disconnect),
        parsed("/disconnect"@ + seq![' '] + rest, open) == Ok::<ActionModel, Seq<char>>(
            ActionModel::Disconnect,
        ),
{
    lemma_commands();
    lemma_command_with("/rooms"@, rest);
    lemma_command_alone("/rooms"@);
    lemma_command_with("/ping"@, rest);
    lemma_command_alone("/ping"@);
    lemma_command_with("/disconnect"@, rest);
    lemma_command_alone("/disconnect"@);
}

proof fn lemma_plain_room(name: Seq<char>)
    requires
        is_plain_room(name),
    ensures
        skip_while(name, equals('#')) == name,
        lower(name) == name,
        is_trimmed(name),
{
    assert(!is_white_space(name[0]) && !is_white_space(name[name.len() - 1]));
    assert forall|i: int| 0 <= i < name.len() implies lower(name)[i] == name[i] by {
        assert(!('A' <= name[i] <= 'Z'));
    }
    assert(lower(name) =~= name);
}

/// "/join" goes to the room that is named, whichever room is open, with the key
/// that stands behind the name and without one where there is none.
#[verifier::rlimit(50)]
pub proof fn law_join_enters_the_named_room(name: Seq<char>, key: Seq<char>, open: Seq<char>)
    requires
        is_plain_room(name),
        is_trimmed(key),
    ensures
        parsed("/join"@ + seq![' '] + name, open) == Ok::<ActionModel, Seq<char>>(
            ActionModel::Join(name, None),
        ),
        parsed("/join"@ + seq![' '] + (name + seq![' '] + key), open) == Ok::<
            ActionModel,
            Seq<char>,
        >(ActionModel::Join(name, Some(key))),
        parsed("/join"@, open) == Err::<ActionModel, Seq<char>>(command_words()),
{
    lemma_commands();
    lemma_plain_room(name);
    lemma_command_alone("/join"@);
    lemma_command_with("/join"@, name);
    lemma_command_alone(name);
    let arg = name + seq![' '] + key;
    assert(arg[0] == name[0]);
    assert(arg.last() == key.last());
    lemma_command_with("/join"@, arg);
    lemma_command_with(name, key);
}

/// A mark before the name of a room, and capital letters in it, do not matter to
/// "/join" and "/register".
pub proof fn law_join_reads_names_loosely(name: Seq<char>, open: Seq<char>)
    requires
        is_word(name),
        name[0] != '#',
    ensures
        parsed("/join"@ + seq![' '] + (seq!['#'] + name), open) == parsed(
            "/join"@ + seq![' '] + name,
            open,
        ),
        parsed("/join"@ + seq![' '] + name, open) matches Ok(ActionModel::Join(room, key))
            && room.len() == name.len() && key.is_none() && forall|i: int|
            0 <= i < name.len() ==> #[trigger] room[i] == lower_char(name[i]),
{
    lemma_commands();
    assert(!is_white_space(name[0]) && !is_white_space(name[name.len() - 1]));
    let marked = seq!['#'] + name;
    assert(marked.last() == name.last());
    assert forall|i: int| 0 <= i < marked.len() implies !is_white_space(#[trigger] marked[i]) by {
        if i > 0 {
            assert(marked[i] == name[i - 1]);
        }
    }
    lemma_command_with("/join"@, name);
    lemma_command_with("/join"@, marked);
    lemma_command_alone(name);
    lemma_command_alone(marked);
    assert(marked.drop_first() =~= name);
    assert(skip_while(marked, equals('#')) == skip_while(name, equals('#')));
}

/// "/register" names the room that stands behind it, or the room that is open, and
/// is refused where there is neither.
#[verifier::rlimit(50)]
pub proof fn law_register_names_a_room(name: Seq<char>, open: Seq<char>)
    requires
        is_plain_room(name),
    ensures
        parsed("/register"@ + seq![' '] + name, open) == Ok::<ActionModel, Seq<char>>(
            ActionModel::Register(name),
        ),
        parsed("/register"@, name) == Ok::<ActionModel, Seq<char>>(ActionModel::Register(name)),
        parsed("/register"@, Seq::empty()) == Err::<ActionModel, Seq<char>>(
            "Usage: /register [room]; select a room first if omitted"@,
        ),
        parsed("/register"@ + seq![' '] + (name + seq![' '] + name), open) is Err,
{
    lemma_commands();
    lemma_plain_room(name);
    lemma_command_alone("/register"@);
    lemma_command_with("/register"@, name);
    assert forall|i: int| 0 <= i < name.len() implies !is_white_space(#[trigger] name[i]) by {}
    let two = name + seq![' '] + name;
    assert(two[0] == name[0]);
    assert(two.last() == name.last());
    lemma_command_with("/register"@, two);
    assert(skip_while(two, equals('#')) == two);
    assert(lower(two)[name.len() as int] == ' ');
    assert(is_white_space(lower(two)[name.len() as int]));
}

/// A word that begins with a slash and is no command is refused: it is neither sent
/// nor taken for another command.
pub proof fn law_unknown_commands_are_refused(word: Seq<char>, open: Seq<char>)
    requires
        is_word(word),
        word[0] == '/',
        word != "/register"@,
        word != "/rooms"@,
        word != "/disconnect"@,
        word != "/ping"@,
        word != "/join"@,
        word != "/part"@,
        word != "/users"@,
        word != "/nick"@,
        word != "/me"@,
    ensures
        parsed(word, open) == Err::<ActionModel, Seq<char>>(command_words()),
{
    lemma_command_alone(word);
}

/// White space around a line does not matter.
pub proof fn law_lines_are_trimmed(
    a: Seq<char>,
    line: Seq<char>,
    b: Seq<char>,
    open: Seq<char>,
)
    requires
        is_blank(a),
        is_blank(b),
        is_trimmed(line),
    ensures
        parsed(a + line + b, open) == parsed(line, open),
        parsed(a, open) == Err::<ActionModel, Seq<char>>("Enter a message or command"@),
{
    law_trim_drops_white_space(a, line, b);
    law_trim_keeps_trimmed(line);
    law_blank_is_trimmed_away(a);
    lemma_find_char(Seq::<char>::empty(), ' ');
    lemma_commands();
}

/// What the hub says is shown as it is, without a name: where there is no source,
/// where the source is the hub, and where the hub is reached at an address of it.
pub proof fn law_hubs_speak_without_a_name(message: RrcMessageView, address: [u8; 16])
    ensures
        message.source_hash@.len() == 0 ==> chat_line(message, None) == message.body@,
        message.source_hash@ == message.hub_hash@ ==> chat_line(message, None) == message.body@,
        is_hash_text(message.source_hash@) && hex_text(address@) == message.hub_hash@
            ==> chat_line(message, Some(address)) == message.body@,
{
}

/// What a user says is shown behind the user's name and a colon: the nickname, or the
/// address where there is none or it is blank.
pub proof fn law_users_speak_behind_their_name(message: RrcMessageView, nick: String)
    requires
        message.source_hash@.len() > 0,
        message.source_hash@ != message.hub_hash@,
    ensures
        chat_line(message, None) == short_name(graphemes_in(sender(message))) + ": "@
            + message.body@,
        message.nick.is_none() ==> sender(message) == message.source_hash@,
        message.nick == Some(nick) && is_blank(nick@) ==> sender(message) == message.source_hash@,
        message.nick == Some(nick) && is_trimmed(nick@) ==> sender(message) == nick@,
{
    if is_blank(nick@) {
        law_blank_is_trimmed_away(nick@);
    }
    if is_trimmed(nick@) {
        law_trim_keeps_trimmed(nick@);
    }
}

/// A name of up to fifteen clusters is shown in full; of a longer one the first eight
/// and the last four, with dots between them.
pub proof fn law_long_names_are_shortened(
    start: Seq<Seq<char>>,
    middle: Seq<Seq<char>>,
    end: Seq<Seq<char>>,
)
    requires
        start.len() == 8,
        end.len() == 4,
    ensures
        middle.len() <= 3 ==> short_name(start + middle + end) == all_joined(
            start + middle + end,
        ),
        middle.len() > 3 ==> short_name(start + middle + end) == all_joined(start) + "..."@
            + all_joined(end),
{
    let parts = start + middle + end;
    assert(parts.take(8) =~= start);
    assert(parts.skip(parts.len() - 4) =~= end);
}

/// Users are listed in their order, each by nickname or else by address, with commas
/// between them.
pub proof fn law_users_are_listed(users: Seq<RrcUserView>, user: RrcUserView)
    ensures
        user_list(seq![user]) == user_name(user),
        users.len() > 0 ==> user_list(users.push(user)) == user_list(users) + ", "@ + user_name(
            user,
        ),
        user.nick.is_some() ==> user_name(user) == user.nick.unwrap()@,
        user.nick.is_none() ==> user_name(user) == user.identity@,
{
    assert(users.push(user).drop_last() =~= users);
    assert(users.push(user).last() == user);
}

/// The answer to a request is of its kind and of its room: whoever joins is in the
/// room that was named, rooms are listed by name, and a ping tells its time.
pub proof fn law_answers_fit_their_requests(
    room: String,
    key: Option<String>,
    rooms: Vec<RrcRoomView>,
    milliseconds: u64,
    reply: ServiceReply,
    answer: Answer,
    i: int,
)
    ensures
        is_answer(Action::Join(room, key), reply, answer) ==> answer == Answer::Joined(room),
        is_answer(Action::Clear(room), reply, answer) ==> answer == Answer::Cleared(room),
        is_answer(Action::Disconnect, reply, answer) ==> answer is Disconnected,
        is_answer(Action::Rooms, ServiceReply::Rooms(rooms), answer) ==> answer is Rooms
            && answer->Rooms_0@.len() == rooms@.len() && (0 <= i < rooms@.len()
            ==> answer->Rooms_0@[i]@ == rooms@[i].name@),
        is_answer(Action::Ping, ServiceReply::Milliseconds(milliseconds), answer) ==> answer
            is Status && answer->Status_0@ == "Pong: "@ + decimal(milliseconds as nat) + " ms"@,
{
    if is_answer(Action::Rooms, ServiceReply::Rooms(rooms), answer) && 0 <= i < rooms@.len() {
        let names = crate::browser::text_views(answer->Rooms_0@);
        assert(names == crate::ui::rrc::room_names(rooms@));
        assert(names.len() == rooms@.len());
        assert(names[i] == answer->Rooms_0@[i]@);
        assert(names[i] == rooms@[i].name@);
    }
    if is_answer(Action::Rooms, ServiceReply::Rooms(rooms), answer) {
        let names = crate::browser::text_views(answer->Rooms_0@);
        assert(names.len() == crate::ui::rrc::room_names(rooms@).len());
    }
}

/// Words without a room are not sent: the user is told to join one.
pub proof fn law_words_need_a_room(words: Seq<char>)
    requires
        is_trimmed(words),
        words[0] != '/',
    ensures
        parsed(words, Seq::empty()) == Err::<ActionModel, Seq<char>>("Join a room first"@),
{
    law_trim_keeps_trimmed(words);
    lemma_find_char(words, ' ');
    let command = first_word(words).0;
    lemma_commands();
    reveal_strlit("/register");
    reveal_strlit("/rooms");
    reveal_strlit("/disconnect");
    reveal_strlit("/ping");
    reveal_strlit("/part");
    reveal_strlit("/users");
    if command.len() > 0 {
        assert(command[0] == words[0]);
    }
}

} // verus!

//! Laws of the HTTP surface and of what is asked of the service: who may do what, and
//! what is refused.
use vstd::prelude::*;
use vstd::utf8::{encode_utf8, is_ascii_chars, is_ascii_chars_encode_utf8};

use crate::api::{
    access_of, bearer_of, error_answer, first_bearer, is_authenticated, is_same_origin,
    presented_token, refusal_of, Access, HttpMethod, RequestHead,
};
use crate::browser::text_view;
use crate::config::{is_token_char, may_listen, token_fault, ConfigError};
use crate::digest::sha256_of;
use crate::hexadecimal::{hex_text, law_hex_text_is_read_back};
use crate::laws::inline::lemma_split_one;
use crate::laws::words::{
    is_blank, is_trimmed, law_blank_is_trimmed_away, law_trim_drops_white_space,
};
use crate::network::{queue_fault, queued_method};
use crate::service::{
    hash_view, identity_follows, is_draft_target, reply_error, search_text, send_fault,
    CommandReply, ErrorModel, IdentityStep, SendMessage,
};
use crate::text::{
    equals, is_control_char, is_white_space, law_trim_keeps_trimmed, lower, skip_back_while,
    starts_with, trim,
};

verus! {

/// What is not under the interface, and the question whether the service is well, is
/// open to everyone.
pub proof fn law_public_paths_are_open(request: RequestHead, authenticated: bool)
    requires
        !starts_with(request.path@, "/api/"@) || request.path@ == "/api/v1/health"@,
    ensures
        access_of(request, authenticated) == Access::Granted,
{
}

/// Everything else under the interface is closed to who is not known.
pub proof fn law_the_interface_is_closed(request: RequestHead, authenticated: bool)
    requires
        starts_with(request.path@, "/api/"@),
        request.path@ != "/api/v1/health"@,
    ensures
        access_of(request, authenticated) == Access::Unauthorized <==> !authenticated,
        authenticated && request.method != HttpMethod::Other ==> access_of(request, authenticated)
            == Access::Granted,
{
}

/// A token opens the interface where its digest is the expected one, and no other
/// token does.
pub proof fn law_only_the_token_opens(request: RequestHead, token: Seq<char>, expected: [u8; 32])
    requires
        text_view(request.authorization) == Some(
            seq!['B', 'e', 'a', 'r', 'e', 'r', ' '] + token,
        ),
    ensures
        presented_token(request) == Some(token),
        is_authenticated(request, Some(expected)) <==> sha256_of(encode_utf8(token)) == expected@,
        is_authenticated(request, None),
{
    lemma_bearer(token);
}

proof fn lemma_bearer(token: Seq<char>)
    ensures
        bearer_of(Some(seq!['B', 'e', 'a', 'r', 'e', 'r', ' '] + token)) == Some(token),
{
    reveal_strlit("Bearer ");
    let value = seq!['B', 'e', 'a', 'r', 'e', 'r', ' '] + token;
    assert(value.take(7) =~= "Bearer "@);
    assert(value.skip(7) =~= token);
}

/// The token may stand among the protocols of a socket, but only where events are
/// asked for, and only where no other token is given.
pub proof fn law_sockets_bring_their_token(request: RequestHead, token: Seq<char>)
    requires
        request.authorization.is_none(),
        text_view(request.websocket_protocol) == Some(
            seq!['b', 'e', 'a', 'r', 'e', 'r', '.'] + token,
        ),
        !token.contains(','),
        token.len() > 0 ==> !is_white_space(token.last()),
    ensures
        request.path@ == "/api/v1/events"@ ==> presented_token(request) == Some(token),
        request.path@ != "/api/v1/events"@ ==> presented_token(request).is_none(),
{
    let value = seq!['b', 'e', 'a', 'r', 'e', 'r', '.'] + token;
    reveal_strlit("bearer.");
    assert(!value.contains(',')) by {
        if value.contains(',') {
            let i = value.index_of(',');
            assert(i >= 7);
            assert(token[i - 7] == ',');
            assert(token.contains(','));
        }
    }
    lemma_split_one(value, ',');
    assert(value[0] == 'b');
    if token.len() > 0 {
        assert(value.last() == token.last());
    } else {
        assert(value.last() == '.');
    }
    law_trim_keeps_trimmed(value);
    assert(value.take(7) =~= "bearer."@);
    assert(value.skip(7) =~= token);
}

/// A page of the same host may change things, by either protocol and with or without
/// a slash at the end of its origin; so may a client that names no origin. Nobody may
/// from another site.
#[verifier::rlimit(50)]
pub proof fn law_origins_are_compared_by_host(
    site: Option<Seq<char>>,
    host: Seq<char>,
    other: Seq<char>,
)
    requires
        site != Some("cross-site"@),
        host.len() > 0,
        host.last() != '/',
        other.len() > 0,
        other.last() != '/',
    ensures
        ({
            let plain = seq!['h', 't', 't', 'p', ':', '/', '/'] + other;
            let secure = seq!['h', 't', 't', 'p', 's', ':', '/', '/'] + other;
            &&& is_same_origin(site, Some(plain), Some(host)) <==> other == host
            &&& is_same_origin(site, Some(secure), Some(host)) <==> other == host
            &&& is_same_origin(site, Some(plain + seq!['/']), Some(host)) <==> other == host
            &&& is_same_origin(site, Some(secure + seq!['/']), Some(host)) <==> other == host
            &&& !is_same_origin(site, Some(plain), None)
            &&& is_same_origin(site, None, Some(host))
            &&& is_same_origin(site, None, None)
            &&& !is_same_origin(Some("cross-site"@), Some(plain), Some(host))
            &&& !is_same_origin(Some("cross-site"@), None, Some(host))
        }),
{
    let http = seq!['h', 't', 't', 'p', ':', '/', '/'];
    let https = seq!['h', 't', 't', 'p', 's', ':', '/', '/'];
    let plain = http + other;
    let secure = https + other;
    reveal_strlit("http://");
    reveal_strlit("https://");
    lemma_slash(other);
    assert(plain.take(7) =~= "http://"@);
    assert(plain.skip(7) =~= other);
    assert((plain + seq!['/']).take(7) =~= "http://"@);
    assert((plain + seq!['/']).skip(7) =~= other + seq!['/']);
    assert(secure.take(8) =~= "https://"@);
    assert(secure.skip(8) =~= other);
    assert((secure + seq!['/']).take(8) =~= "https://"@);
    assert((secure + seq!['/']).skip(8) =~= other + seq!['/']);
    assert(secure.take(7)[4] == 's');
    assert((secure + seq!['/']).take(7)[4] == 's');
    if plain.len() >= 8 {
        assert(plain.take(8)[4] == ':');
    }
    assert((plain + seq!['/']).take(8)[4] == ':');
}

proof fn lemma_slash(host: Seq<char>)
    requires
        host.len() > 0,
        host.last() != '/',
    ensures
        skip_back_while(host, equals('/')) == host,
        skip_back_while(host + seq!['/'], equals('/')) == host,
{
    let s = host + seq!['/'];
    assert(s.last() == '/');
    assert(s.drop_last() =~= host);
    assert(skip_back_while(s, equals('/')) == skip_back_while(host, equals('/')));
}

/// An origin of another kind is never the own one.
pub proof fn law_other_schemes_are_foreign(site: Option<Seq<char>>, origin: Seq<char>, host: Seq<char>)
    requires
        origin.len() == 0 || origin[0] != 'h',
    ensures
        !is_same_origin(site, Some(origin), Some(host)),
{
    reveal_strlit("http://");
    reveal_strlit("https://");
    if origin.len() >= 7 {
        assert(origin.take(7)[0] == origin[0]);
    }
    if origin.len() >= 8 {
        assert(origin.take(8)[0] == origin[0]);
    }
}

/// Each kind of error has its own status, and its words are passed on, but for those
/// of an error inside the service, which are kept back.
pub proof fn law_errors_are_answered_by_kind(text: Seq<char>, other: Seq<char>)
    ensures
        error_answer(ErrorModel::Invalid(text)) == (400u16, text),
        error_answer(ErrorModel::TooLarge(text)) == (413u16, text),
        error_answer(ErrorModel::Conflict(text)) == (409u16, text),
        error_answer(ErrorModel::Unavailable(text)) == (503u16, text),
        error_answer(ErrorModel::Remote(text)) == (502u16, text),
        error_answer(ErrorModel::Internal(text)).0 == 500,
        error_answer(ErrorModel::Internal(text)) == error_answer(ErrorModel::Internal(other)),
{
}

/// What the network refuses is told in its words; where it cannot be asked or does
/// not answer, the service is not there.
pub proof fn law_refusals_are_told(text: String)
    ensures
        reply_error(CommandReply::<()>::Refused(text)) == ErrorModel::Remote(text@),
        reply_error(CommandReply::<()>::NotSent) is Unavailable,
        reply_error(CommandReply::<()>::Dropped) is Unavailable,
{
}

/// A token is 32 to 1024 letters, digits, hyphens, underscores, dots and tildes; any
/// other text is refused, by its length first.
pub proof fn law_tokens_are_long_and_plain(token: Seq<char>)
    requires
        forall|i: int| 0 <= i < token.len() ==> is_token_char(#[trigger] token[i]),
    ensures
        32 <= token.len() <= 1024 ==> token_fault(token).is_none(),
        token.len() < 32 || token.len() > 1024 ==> token_fault(token)
            == Some(ConfigError::TokenLength),
{
    assert(is_ascii_chars(token)) by {
        assert forall|i: int| 0 <= i < token.len() implies 0 <= (#[trigger] token[i] as nat)
            < 128 by {
            assert(is_token_char(token[i]));
        }
    }
    is_ascii_chars_encode_utf8(token);
}

/// One character that has no place in a token spoils it.
pub proof fn law_odd_characters_spoil_a_token(token: Seq<char>, i: int)
    requires
        0 <= i < token.len(),
        !('a' <= token[i] <= 'z' || 'A' <= token[i] <= 'Z' || '0' <= token[i] <= '9' || token[i]
            == '-' || token[i] == '_' || token[i] == '.' || token[i] == '~'),
    ensures
        token_fault(token).is_some(),
{
    assert(!is_token_char(token[i]));
}

/// Whether a message is one that can be sent: it has somebody to go to, says
/// something, is not too long and names no node.
pub open spec fn is_sendable(request: SendMessage, recipient: Seq<u8>) -> bool {
    &&& recipient.len() == 16
    &&& request.destination_hash@ == hex_text(recipient)
    &&& trim(request.content@).len() > 0
    &&& encode_utf8(request.title@).len() <= 1024
    &&& encode_utf8(request.content@).len() <= 1048576
    &&& request.propagation_node.is_none()
}

/// A message that can be sent, by a way that is known, is taken where the network is
/// there, and refused for want of it where it is not; by an unknown way it is
/// refused.
pub proof fn law_good_messages_are_taken(request: SendMessage, recipient: Seq<u8>)
    requires
        is_sendable(request, recipient),
    ensures
        queued_method(request.delivery_method@).is_some() ==> send_fault(request, true).is_none(),
        queued_method(request.delivery_method@).is_some() ==> send_fault(request, false)
            matches Some(ErrorModel::Unavailable(_)),
        queued_method(request.delivery_method@).is_none() ==> send_fault(request, true)
            matches Some(ErrorModel::Invalid(_)),
{
    law_hex_text_is_read_back(recipient);
}

/// What the service takes, the queue takes: it is never refused for its way or its
/// node once it was checked.
pub proof fn law_taken_messages_can_be_queued(request: SendMessage, node: Option<[u8; 16]>)
    requires
        send_fault(request, true).is_none(),
        node.is_some() ==> search_text(text_view(request.propagation_node)).is_some(),
    ensures
        queue_fault(lower(trim(request.delivery_method@)), hash_view(node)).is_none(),
{
    let method = lower(trim(request.delivery_method@));
    lemma_lower_again(request.delivery_method@);
    lemma_literal_methods();
}

proof fn lemma_literal_methods()
    ensures
        "propagated"@ != "auto"@,
        "propagated"@ != "automatic"@,
        "propagated"@.len() > 0,
{
    reveal_strlit("propagated");
    reveal_strlit("auto");
    reveal_strlit("automatic");
    assert("propagated"@[0] == 'p');
    assert("auto"@[0] == 'a');
    assert("automatic"@[0] == 'a');
}

proof fn lemma_lower_again(s: Seq<char>)
    ensures
        lower(trim(lower(trim(s)))) == lower(trim(s)),
{
    let t = trim(s);
    crate::text::lemma_trim_ends(s);
    assert(lower(t).len() == t.len());
    if t.len() > 0 {
        assert(lower(t)[0] == crate::text::lower_char(t[0]));
        assert(lower(t).last() == crate::text::lower_char(t.last()));
        law_trim_keeps_trimmed(lower(t));
    } else {
        law_trim_keeps_trimmed(lower(t));
    }
    assert(lower(lower(t)) =~= lower(t));
}

/// What is refused: a message to nobody, an empty one, one that is too long, and one
/// with a node that it has no use for.
pub proof fn law_bad_messages_are_refused(request: SendMessage, online: bool)
    ensures
        request.destination_hash@.len() != 32 ==> send_fault(request, online) matches Some(
            ErrorModel::Invalid(_),
        ),
        is_blank(request.content@) ==> send_fault(request, online) matches Some(
            ErrorModel::Invalid(_),
        ),
        encode_utf8(request.title@).len() > 1024 ==> send_fault(request, online).is_some(),
        encode_utf8(request.content@).len() > 1048576 ==> send_fault(request, online).is_some(),
        search_text(text_view(request.propagation_node)).is_some() && lower(
            trim(request.delivery_method@),
        ) != "propagated"@ ==> send_fault(request, online).is_some(),
        search_text(text_view(request.propagation_node)).is_some() && search_text(
            text_view(request.propagation_node),
        ).unwrap().len() != 32 ==> send_fault(request, online).is_some(),
{
    if is_blank(request.content@) {
        law_blank_is_trimmed_away(request.content@);
    }
}

/// Blank words are no search, and white space around words is not searched for.
pub proof fn law_searches_are_trimmed(words: Seq<char>)
    ensures
        is_trimmed(words) ==> search_text(Some(words)) == Some(words),
        is_blank(words) ==> search_text(Some(words)).is_none(),
        search_text(None).is_none(),
{
    if is_trimmed(words) {
        law_trim_keeps_trimmed(words);
    }
    if is_blank(words) {
        law_blank_is_trimmed_away(words);
    }
}

/// Drafts are kept for conversations and chats, under a name that is not empty, not
/// too long and without control characters.
pub proof fn law_drafts_have_a_place(target: Seq<char>, scope: Seq<char>, i: int)
    requires
        scope == "lxmf"@ || scope == "rrc"@,
    ensures
        target.len() > 0 && encode_utf8(target).len() <= 256 && (forall|j: int|
            0 <= j < target.len() ==> !is_control_char(#[trigger] target[j])) ==> is_draft_target(
            scope,
            target,
        ),
        target.len() == 0 ==> !is_draft_target(scope, target),
        encode_utf8(target).len() > 256 ==> !is_draft_target(scope, target),
        0 <= i < target.len() && is_control_char(target[i]) ==> !is_draft_target(scope, target),
{
}

/// Of anything else no draft is kept.
pub proof fn law_drafts_have_no_other_place(target: Seq<char>, scope: Seq<char>)
    requires
        scope != "lxmf"@,
        scope != "rrc"@,
    ensures
        !is_draft_target(scope, target),
{
}

/// Nobody from outside is served without leave and a token; the own machine is always
/// served.
pub proof fn law_the_outside_needs_leave_and_a_token(allow_remote: bool, has_token_file: bool)
    ensures
        may_listen(true, allow_remote, has_token_file),
        !may_listen(false, false, has_token_file),
        !may_listen(false, allow_remote, false),
        may_listen(false, true, true),
{
}

/// Who is not let in is told why, by the status for it; who is, is told nothing.
pub proof fn law_refusals_have_their_status()
    ensures
        refusal_of(Access::Granted).is_none(),
        refusal_of(Access::Unauthorized).is_some() && refusal_of(Access::Unauthorized).unwrap().0
            == 401,
        refusal_of(Access::CrossOrigin).is_some() && refusal_of(Access::CrossOrigin).unwrap().0
            == 403,
{
}

/// A new name is told to the network where it is there, and announced where that is
/// asked for; without a network it is kept, but not announced.
pub proof fn law_names_are_told(name: Seq<char>, announce_now: bool, step: IdentityStep)
    ensures
        identity_follows(name, announce_now, true, step) ==> step is Tell && step->announce_now
            == announce_now && (name.len() > 0 ==> text_view(step->Tell_name) == Some(name))
            && (name.len() == 0 ==> step->Tell_name.is_none()),
        identity_follows(name, true, false, step) ==> step is Answer && step->Answer_0 is Err,
        identity_follows(name, false, false, step) ==> step is Answer && step->Answer_0 is Ok
            && step->Answer_0->Ok_0.name@ == name && !step->Answer_0->Ok_0.announced,
{
}

/// A message that is refused is refused for what is wrong with it, in words that say so:
/// its destination first, then its content, its length, its way, the network, and its
/// node.
pub proof fn law_refusals_of_messages_say_why(request: SendMessage, recipient: Seq<u8>)
    ensures
        request.destination_hash@.len() != 32 ==> send_fault(request, true) == Some(
            ErrorModel::Invalid("destination hash"@ + " must contain 32 hexadecimal characters"@),
        ),
        is_sendable(request, recipient) && queued_method(request.delivery_method@).is_none()
            ==> send_fault(request, true) == Some(
            ErrorModel::Invalid("unknown LXMF delivery method"@),
        ),
        is_sendable(request, recipient) && queued_method(request.delivery_method@).is_some()
            ==> send_fault(request, false) == Some(
            ErrorModel::Unavailable("Reticulum is not online"@),
        ),
        recipient.len() == 16 && request.destination_hash@ == hex_text(recipient) && is_blank(
            request.content@,
        ) ==> send_fault(request, true) == Some(
            ErrorModel::Invalid("message content cannot be empty"@),
        ),
        recipient.len() == 16 && request.destination_hash@ == hex_text(recipient) && trim(
            request.content@,
        ).len() > 0 && encode_utf8(request.content@).len() > 1048576 ==> send_fault(request, true)
            == Some(ErrorModel::TooLarge("message exceeds local safety limits"@)),
{
    if recipient.len() == 16 {
        law_hex_text_is_read_back(recipient);
    }
    if is_blank(request.content@) {
        law_blank_is_trimmed_away(request.content@);
    }
}

/// No other header brings a token, and of several protocols the first that is one counts.
#[verifier::rlimit(50)]
pub proof fn law_other_headers_bring_no_token(
    value: Seq<char>,
    other: Seq<char>,
    token: Seq<char>,
    rest: Seq<Seq<char>>,
)
    requires
        value.len() < 7 || value.take(7) != seq!['B', 'e', 'a', 'r', 'e', 'r', ' '],
        is_trimmed(other),
        other[0] != 'b',
        token.len() > 0 ==> !is_white_space(token.last()),
    ensures
        bearer_of(Some(value)).is_none(),
        bearer_of(None).is_none(),
        first_bearer(seq![other] + rest) == first_bearer(rest),
        first_bearer(seq![seq!['b', 'e', 'a', 'r', 'e', 'r', '.'] + token] + rest) == Some(token),
        first_bearer(seq![seq![' ', 'b', 'e', 'a', 'r', 'e', 'r', '.'] + token] + rest) == Some(
            token,
        ),
        first_bearer(Seq::empty()).is_none(),
{
    reveal_strlit("Bearer ");
    reveal_strlit("bearer.");
    assert("Bearer "@ =~= seq!['B', 'e', 'a', 'r', 'e', 'r', ' ']);
    law_trim_keeps_trimmed(other);
    if other.len() >= 7 {
        assert(other.take(7)[0] == other[0]);
    }
    assert((seq![other] + rest)[0] == other);
    assert((seq![other] + rest).drop_first() =~= rest);
    let word = seq!['b', 'e', 'a', 'r', 'e', 'r', '.'] + token;
    assert(word[0] == 'b');
    if token.len() > 0 {
        assert(word.last() == token.last());
    } else {
        assert(word.last() == '.');
    }
    law_trim_keeps_trimmed(word);
    assert(word.take(7) =~= "bearer."@);
    assert(word.skip(7) =~= token);
    assert((seq![word] + rest)[0] == word);
    let spaced = seq![' ', 'b', 'e', 'a', 'r', 'e', 'r', '.'] + token;
    assert(spaced =~= seq![' '] + word + Seq::<char>::empty());
    law_trim_drops_white_space(seq![' '], word, Seq::empty());
    assert((seq![spaced] + rest)[0] == spaced);
}

} // verus!

//! What every frontend asks of the application: the checks a request passes
//! before it reaches the database or the network.
use vstd::prelude::*;
use vstd::string::*;
use vstd::utf8::encode_utf8;

use crate::browser::{is_page_path, text_view, url_parse, BrowserError, NomadUrl};
use crate::hexadecimal::{decode_hash, hex_bytes, is_hash_text};
use crate::table::TextMap;
use crate::text::{
    byte_len, clean_name, clean_name_of, has_control, lower, lower_text, same_text,
    text_has_control, trim, trim_text,
};

verus! {

/// Why a request fails. `Internal` holds a description for the log.
#[derive(Debug, Clone)]
pub enum AppError {
    Invalid(String),
    TooLarge(String),
    Conflict(String),
    Unavailable(String),
    Remote(String),
    Internal(String),
}

pub enum ErrorModel {
    Invalid(Seq<char>),
    TooLarge(Seq<char>),
    Conflict(Seq<char>),
    Unavailable(Seq<char>),
    Remote(Seq<char>),
    Internal(Seq<char>),
}

impl View for AppError {
    type V = ErrorModel;

    open spec fn view(&self) -> ErrorModel {
        match *self {
            AppError::Invalid(text) => ErrorModel::Invalid(text@),
            AppError::TooLarge(text) => ErrorModel::TooLarge(text@),
            AppError::Conflict(text) => ErrorModel::Conflict(text@),
            AppError::Unavailable(text) => ErrorModel::Unavailable(text@),
            AppError::Remote(text) => ErrorModel::Remote(text@),
            AppError::Internal(text) => ErrorModel::Internal(text@),
        }
    }
}

pub type AppResult<T> = Result<T, AppError>;

#[derive(Debug, Clone)]
pub struct IdentitySettings {
    pub destination_hash: Option<String>,
    pub name: String,
    pub online: bool,
}

#[derive(Debug, Clone)]
pub struct IdentityUpdate {
    pub name: String,
    pub announced: bool,
}

#[derive(Debug, Clone)]
pub struct SendMessage {
    pub destination_hash: String,
    pub title: String,
    pub content: String,
    pub delivery_method: String,
    pub propagation_node: Option<String>,
}

#[derive(Debug)]
pub struct FetchPage {
    pub url: String,
    pub reload: bool,
    pub fields: TextMap<String>,
}

/// The settings of the identity: the stored name, or the client's own.
pub fn identity_settings(
    stored_name: Option<String>,
    destination_hash: Option<String>,
    online: bool,
) -> (r: IdentitySettings)
    ensures
        r.destination_hash == destination_hash,
        r.online == online,
        r.name@ == match stored_name {
            Some(name) => name@,
            None => "rsNomadNet"@,
        },
{
    let name = match stored_name {
        Some(name) => name,
        None => "rsNomadNet".to_string(),
    };
    IdentitySettings { destination_hash, name, online }
}

/// The name under which the identity is announced: no control characters, at
/// most 128 characters, no surrounding space. It is stored before anything
/// else happens.
pub fn announce_name(name: &str) -> (r: String)
    ensures
        r@ == clean_name(name@, 128),
{
    clean_name_of(name, 128)
}

/// What follows once a new name is stored.
#[derive(Debug)]
pub enum IdentityStep {
    /// The request is answered.
    Answer(AppResult<IdentityUpdate>),
    /// The network is told the name, then `identity_told` answers.
    Tell { name: Option<String>, announce_now: bool },
}

/// What follows a change of name: the network is told where it is there, with no name
/// where it is empty; without a network the name is kept, and cannot be announced.
pub open spec fn identity_follows(
    name: Seq<char>,
    announce_now: bool,
    online: bool,
    step: IdentityStep,
) -> bool {
    match step {
        IdentityStep::Tell { name: told, announce_now: now } => {
            &&& online
            &&& now == announce_now
            &&& text_view(told) == if name.len() == 0 {
                None
            } else {
                Some(name)
            }
        },
        IdentityStep::Answer(Ok(update)) => {
            &&& !online
            &&& !announce_now
            &&& update.name@ == name
            &&& !update.announced
        },
        IdentityStep::Answer(Err(error)) => {
            &&& !online
            &&& announce_now
            &&& error@ == ErrorModel::Unavailable("Reticulum is not online"@)
        },
    }
}

pub fn identity_step(name: &String, announce_now: bool, online: bool) -> (r: IdentityStep)
    ensures
        identity_follows(name@, announce_now, online, r),
        !online && announce_now ==> (r matches IdentityStep::Answer(Err(error)) && error@
            == ErrorModel::Unavailable("Reticulum is not online"@)),
        !online && !announce_now ==> (r matches IdentityStep::Answer(Ok(update)) && update.name@
            == name@ && !update.announced),
        online ==> (r matches IdentityStep::Tell { name: told, announce_now: now } && now
            == announce_now && text_view(told) == if name@.len() == 0 {
            None
        } else {
            Some(name@)
        }),
{
    if !online {
        if announce_now {
            return IdentityStep::Answer(
                Err(AppError::Unavailable("Reticulum is not online".to_string())),
            );
        }
        return IdentityStep::Answer(Ok(IdentityUpdate { name: name.clone(), announced: false }));
    }
    let told = if name.as_str().is_empty() {
        None
    } else {
        Some(name.clone())
    };
    IdentityStep::Tell { name: told, announce_now }
}

/// How a command to the network ended.
#[derive(Debug)]
pub enum CommandReply<T> {
    Answered(T),
    Refused(String),
    NotSent,
    Dropped,
}

pub open spec fn reply_error<T>(reply: CommandReply<T>) -> ErrorModel {
    match reply {
        CommandReply::Answered(_) => ErrorModel::Internal(Seq::empty()),
        CommandReply::Refused(text) => ErrorModel::Remote(text@),
        CommandReply::NotSent => ErrorModel::Unavailable("network service is unavailable"@),
        CommandReply::Dropped => ErrorModel::Unavailable("network service stopped"@),
    }
}

/// The answer to a request whose command was sent to the network.
pub fn command_answer<T>(reply: CommandReply<T>) -> (r: AppResult<T>)
    ensures
        r is Ok == reply is Answered,
        r is Ok ==> r->Ok_0 == reply->Answered_0,
        r is Err ==> r->Err_0@ == reply_error(reply),
{
    match reply {
        CommandReply::Answered(value) => Ok(value),
        CommandReply::Refused(text) => Err(AppError::Remote(text)),
        CommandReply::NotSent => {
            Err(AppError::Unavailable("network service is unavailable".to_string()))
        },
        CommandReply::Dropped => Err(AppError::Unavailable("network service stopped".to_string())),
    }
}

/// The answer to a new name once the network was told of it.
pub fn identity_told(name: String, announce_now: bool, reply: CommandReply<()>) -> (r: AppResult<
    IdentityUpdate,
>)
    ensures
        r is Ok == reply is Answered,
        r is Ok ==> r->Ok_0.name == name && r->Ok_0.announced == announce_now,
        r is Err ==> r->Err_0@ == reply_error(reply),
{
    match command_answer(reply) {
        Ok(_) => Ok(IdentityUpdate { name, announced: announce_now }),
        Err(error) => Err(error),
    }
}

pub open spec fn hash_message(field: Seq<char>) -> Seq<char> {
    field + " must contain 32 hexadecimal characters"@
}

pub fn parse_hash(value: &str, field: &str) -> (r: AppResult<[u8; 16]>)
    ensures
        r is Ok == is_hash_text(value@),
        r is Ok ==> r->Ok_0@ == hex_bytes(value@),
        r is Err ==> r->Err_0@ == ErrorModel::Invalid(hash_message(field@)),
{
    match decode_hash(value) {
        Some(hash) => Ok(hash),
        None => {
            let mut text = field.to_string();
            text.append(" must contain 32 hexadecimal characters");
            Err(AppError::Invalid(text))
        },
    }
}

pub fn canonical_hash(value: &str, field: &str) -> (r: AppResult<String>)
    ensures
        r is Ok == is_hash_text(value@),
        r is Ok ==> r->Ok_0@ == lower(value@),
        r is Err ==> r->Err_0@ == ErrorModel::Invalid(hash_message(field@)),
{
    match parse_hash(value, field) {
        Ok(_) => Ok(lower_text(value)),
        Err(error) => Err(error),
    }
}

/// What a search for messages looks for; nothing where only space was typed.
pub open spec fn search_text(query: Option<Seq<char>>) -> Option<Seq<char>> {
    match query {
        Some(text) if trim(text).len() > 0 => Some(trim(text)),
        _ => None,
    }
}

/// Which messages to read: those of a conversation, or those of it that match.
pub fn message_query(destination_hash: &str, query: &Option<String>) -> (r: AppResult<
    (String, Option<String>),
>)
    ensures
        r is Ok == is_hash_text(destination_hash@),
        r is Ok ==> r->Ok_0.0@ == lower(destination_hash@) && text_view(r->Ok_0.1) == search_text(
            text_view(*query),
        ),
        r is Err ==> r->Err_0@ == ErrorModel::Invalid(hash_message("destination hash"@)),
{
    let hash = match canonical_hash(destination_hash, "destination hash") {
        Ok(hash) => hash,
        Err(error) => {
            return Err(error);
        },
    };
    let search = match query {
        Some(text) => {
            let trimmed = trim_text(text.as_str());
            if trimmed.as_str().is_empty() {
                None
            } else {
                Some(trimmed)
            }
        },
        None => None,
    };
    Ok((hash, search))
}

/// A conversation with messages under way is not cleared.
pub fn check_clear(has_pending: bool) -> (r: AppResult<()>)
    ensures
        r is Ok == !has_pending,
        r is Err ==> r->Err_0@ == ErrorModel::Conflict(
            "conversation has messages awaiting delivery"@,
        ),
{
    if has_pending {
        Err(AppError::Conflict("conversation has messages awaiting delivery".to_string()))
    } else {
        Ok(())
    }
}

/// Drafts belong to a message conversation or a chat room with a printable name
/// of at most 256 bytes.
pub open spec fn is_draft_target(scope: Seq<char>, target: Seq<char>) -> bool {
    &&& scope == "lxmf"@ || scope == "rrc"@
    &&& target.len() > 0
    &&& encode_utf8(target).len() <= 256
    &&& !has_control(target)
}

pub fn validate_draft_target(scope: &str, target: &str) -> (r: AppResult<()>)
    ensures
        r is Ok == is_draft_target(scope@, target@),
        r is Err ==> r->Err_0@ == ErrorModel::Invalid("invalid draft target"@),
{
    if (same_text(scope, "lxmf") || same_text(scope, "rrc")) && !target.is_empty() && byte_len(
        target,
    ) <= 256 && !text_has_control(target) {
        Ok(())
    } else {
        Err(AppError::Invalid("invalid draft target".to_string()))
    }
}

/// Checks a draft before it is stored.
pub fn check_draft(scope: &str, target: &str, content: &str) -> (r: AppResult<()>)
    ensures
        r is Ok == (is_draft_target(scope@, target@) && encode_utf8(content@).len() <= 1048576),
        r is Err ==> r->Err_0@ == if !is_draft_target(scope@, target@) {
            ErrorModel::Invalid("invalid draft target"@)
        } else {
            ErrorModel::TooLarge("draft exceeds local safety limit"@)
        },
{
    match validate_draft_target(scope, target) {
        Err(error) => Err(error),
        Ok(_) => {
            if byte_len(content) > 1048576 {
                Err(AppError::TooLarge("draft exceeds local safety limit".to_string()))
            } else {
                Ok(())
            }
        },
    }
}

/// A message that passed the checks, as the network is told of it.
#[derive(Debug)]
pub struct CheckedMessage {
    pub destination_hash: [u8; 16],
    pub title: String,
    pub content: String,
    pub delivery_method: String,
    pub propagation_node: Option<[u8; 16]>,
}

pub open spec fn hash_view(hash: Option<[u8; 16]>) -> Option<Seq<u8>> {
    match hash {
        Some(hash) => Some(hash@),
        None => None,
    }
}

/// The names of the ways to deliver a message.
pub open spec fn is_delivery_method(method: Seq<char>) -> bool {
    ||| method.len() == 0
    ||| method == "auto"@
    ||| method == "automatic"@
    ||| method == "opportunistic"@
    ||| method == "direct"@
    ||| method == "propagated"@
}

pub fn known_delivery_method(method: &str) -> (r: bool)
    ensures
        r == is_delivery_method(method@),
{
    method.is_empty() || same_text(method, "auto") || same_text(method, "automatic") || same_text(
        method,
        "opportunistic",
    ) || same_text(method, "direct") || same_text(method, "propagated")
}

/// The first reason not to send a message, if there is one.
pub open spec fn send_fault(request: SendMessage, online: bool) -> Option<ErrorModel> {
    let method = lower(trim(request.delivery_method@));
    let node = search_text(text_view(request.propagation_node));
    if !is_hash_text(request.destination_hash@) {
        Some(ErrorModel::Invalid(hash_message("destination hash"@)))
    } else if trim(request.content@).len() == 0 {
        Some(ErrorModel::Invalid("message content cannot be empty"@))
    } else if encode_utf8(request.title@).len() > 1024 || encode_utf8(request.content@).len()
        > 1048576 {
        Some(ErrorModel::TooLarge("message exceeds local safety limits"@))
    } else if !is_delivery_method(method) {
        Some(ErrorModel::Invalid("unknown LXMF delivery method"@))
    } else if !online {
        Some(ErrorModel::Unavailable("Reticulum is not online"@))
    } else if node.is_some() && !is_hash_text(node.unwrap()) {
        Some(ErrorModel::Invalid(hash_message("propagation node hash"@)))
    } else if node.is_some() && method != "propagated"@ {
        Some(ErrorModel::Invalid("propagation_node is only valid for propagated delivery"@))
    } else {
        None
    }
}

/// Checks a message before it is handed to the network.
pub fn check_message(request: SendMessage, online: bool) -> (r: AppResult<CheckedMessage>)
    ensures
        r is Ok == send_fault(request, online).is_none(),
        r is Err ==> r->Err_0@ == send_fault(request, online).unwrap(),
        r is Ok ==> {
            let node = search_text(text_view(request.propagation_node));
            &&& r->Ok_0.destination_hash@ == hex_bytes(request.destination_hash@)
            &&& r->Ok_0.title == request.title
            &&& r->Ok_0.content == request.content
            &&& r->Ok_0.delivery_method@ == lower(trim(request.delivery_method@))
            &&& hash_view(r->Ok_0.propagation_node) == match node {
                Some(text) => Some(hex_bytes(text)),
                None => None,
            }
        },
{
    let destination_hash = match parse_hash(request.destination_hash.as_str(), "destination hash") {
        Ok(hash) => hash,
        Err(error) => {
            return Err(error);
        },
    };
    if trim_text(request.content.as_str()).as_str().is_empty() {
        return Err(AppError::Invalid("message content cannot be empty".to_string()));
    }
    if byte_len(request.title.as_str()) > 1024 || byte_len(request.content.as_str()) > 1048576 {
        return Err(AppError::TooLarge("message exceeds local safety limits".to_string()));
    }
    let delivery_method = lower_text(trim_text(request.delivery_method.as_str()).as_str());
    if !known_delivery_method(delivery_method.as_str()) {
        return Err(AppError::Invalid("unknown LXMF delivery method".to_string()));
    }
    if !online {
        return Err(AppError::Unavailable("Reticulum is not online".to_string()));
    }
    let propagation_node = match &request.propagation_node {
        None => None,
        Some(text) => {
            let trimmed = trim_text(text.as_str());
            if trimmed.as_str().is_empty() {
                None
            } else {
                match parse_hash(trimmed.as_str(), "propagation node hash") {
                    Ok(hash) => Some(hash),
                    Err(error) => {
                        return Err(error);
                    },
                }
            }
        },
    };
    if propagation_node.is_some() && !same_text(delivery_method.as_str(), "propagated") {
        return Err(
            AppError::Invalid("propagation_node is only valid for propagated delivery".to_string()),
        );
    }
    Ok(
        CheckedMessage {
            destination_hash,
            title: request.title,
            content: request.content,
            delivery_method,
            propagation_node,
        },
    )
}

pub open spec fn url_fault(error: BrowserError) -> Seq<char> {
    match error {
        BrowserError::InvalidUrl => "invalid NomadNet URL"@,
        BrowserError::UnsupportedPath => "only /page/ and /file/ paths are supported"@,
        BrowserError::InvalidEncoding => "page is not valid UTF-8"@,
    }
}

/// The first reason not to fetch a page, if there is one.
pub open spec fn fetch_fault(url: Seq<char>, online: bool) -> Option<ErrorModel> {
    match url_parse(url) {
        Err(error) => Some(ErrorModel::Invalid(url_fault(error))),
        Ok(parsed) => if !is_page_path(parsed.path) {
            Some(ErrorModel::Invalid("page fetch requires a /page/ URL"@))
        } else if !online {
            Some(ErrorModel::Unavailable("Reticulum is not online"@))
        } else {
            None
        },
    }
}

/// Checks the address of a page before it is fetched.
pub fn check_fetch(url: &str, online: bool) -> (r: AppResult<NomadUrl>)
    ensures
        r is Ok == fetch_fault(url@, online).is_none(),
        r is Err ==> r->Err_0@ == fetch_fault(url@, online).unwrap(),
        r is Ok ==> r->Ok_0@ == url_parse(url@)->Ok_0,
{
    let parsed = match NomadUrl::parse(url) {
        Ok(parsed) => parsed,
        Err(error) => {
            return Err(AppError::Invalid(error.message()));
        },
    };
    if !parsed.is_page() {
        return Err(AppError::Invalid("page fetch requires a /page/ URL".to_string()));
    }
    if !online {
        return Err(AppError::Unavailable("Reticulum is not online".to_string()));
    }
    Ok(parsed)
}

/// Seconds since the epoch as the database stores them.
pub fn unix_seconds(seconds: u64) -> (r: i64)
    ensures
        r == if seconds > i64::MAX {
            i64::MAX as int
        } else {
            seconds as int
        },
{
    if seconds > 9223372036854775807u64 {
        9223372036854775807i64
    } else {
        seconds as i64
    }
}

/// Canonical hashes stay as they are.
pub proof fn law_canonical_hash_is_stable(value: Seq<char>)
    requires
        is_hash_text(value),
    ensures
        is_hash_text(lower(value)),
        lower(lower(value)) == lower(value),
        hex_bytes(lower(value)) == hex_bytes(value),
{
    let small = lower(value);
    assert forall|i: int| 0 <= i < small.len() implies crate::text::is_hex_char(
        #[trigger] small[i],
    ) && crate::text::lower_char(small[i]) == small[i] && crate::hexadecimal::hex_value(small[i])
        == crate::hexadecimal::hex_value(value[i]) by {
        assert(crate::text::is_hex_char(value[i]));
    }
    assert(lower(small) =~= small);
    assert forall|i: int| 0 <= i < 16 implies hex_bytes(small)[i] == hex_bytes(value)[i] by {
        assert(crate::hexadecimal::hex_value(small[2 * i]) == crate::hexadecimal::hex_value(
            value[2 * i],
        ));
        assert(crate::hexadecimal::hex_value(small[2 * i + 1]) == crate::hexadecimal::hex_value(
            value[2 * i + 1],
        ));
    }
    assert(hex_bytes(small) =~= hex_bytes(value));
}

/// Nothing is sent and nothing is fetched while the network is down.
pub proof fn law_offline_refuses(request: SendMessage, url: Seq<char>)
    ensures
        send_fault(request, false).is_some(),
        fetch_fault(url, false).is_some(),
{
}

} // verus!

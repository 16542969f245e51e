//! The network service: what it does next, how messages are queued, sent and
//! retried, and what is stored of those that arrive.
use vstd::prelude::*;
use vstd::slice::*;
use vstd::string::*;
use vstd::utf8::{decode_utf8, valid_utf8};

use crate::announce::{hash_text, hash_text_view, Announce, DirectoryKind};
use crate::browser::{text_view, NomadUrl};
use crate::db::{later, saturating_sum, NewMessage, PendingMessage};
use crate::hexadecimal::{
    decode_hex, encode_hex, hex_bytes, hex_complaint, hex_text, is_hash_text, is_hex_text,
};
use crate::lxmf::{key_view, lxmf_unpacked, unpack_message, UnpackedMessage, UnpackedModel};
use crate::models::{InterfaceSnapshot, NetworkSnapshot, NetworkState};
use crate::service::{hash_view, CheckedMessage};
use crate::table::TextMap;
use crate::text::{
    chars_of, lower, lower_text, same_chars, same_text, text_from_utf8, trim, trim_text,
};

verus! {

/// How long a message may be under way before it is tried again, in seconds.
pub const SENDING_SECONDS: u64 = 180;

/// How often a message is tried.
pub const MAX_ATTEMPTS: u32 = 5;

/// How long to wait between two downloads from the propagation node, in
/// milliseconds.
pub const DOWNLOAD_INTERVAL: u64 = 90000;

pub fn starting_snapshot() -> (r: NetworkSnapshot)
    ensures
        r.state == NetworkState::Starting,
        r.detail@ == "Starting Reticulum"@,
        r.destination_hash.is_none(),
        r.interfaces@.len() == 0,
{
    NetworkSnapshot {
        state: NetworkState::Starting,
        detail: "Starting Reticulum".to_string(),
        destination_hash: None,
        interfaces: Vec::new(),
    }
}

pub fn failed_snapshot(error: String) -> (r: NetworkSnapshot)
    ensures
        r.state == NetworkState::Failed,
        r.detail == error,
        r.destination_hash.is_none(),
        r.interfaces@.len() == 0,
{
    NetworkSnapshot {
        state: NetworkState::Failed,
        detail: error,
        destination_hash: None,
        interfaces: Vec::new(),
    }
}

pub fn online_snapshot(
    instance_mode: &str,
    destination_hash: String,
    interfaces: Vec<InterfaceSnapshot>,
) -> (r: NetworkSnapshot)
    ensures
        r.state == NetworkState::Online,
        r.detail@ == instance_mode@ + " instance"@,
        r.destination_hash == Some(destination_hash),
        r.interfaces == interfaces,
{
    let mut detail = instance_mode.to_string();
    detail.append(" instance");
    NetworkSnapshot {
        state: NetworkState::Online,
        detail,
        destination_hash: Some(destination_hash),
        interfaces,
    }
}

/// What is said of a text that writes no address: the decoder's words where it is
/// not hexadecimal at all.
pub open spec fn bad_hash(value: Seq<char>) -> Seq<char> {
    if value.len() % 2 == 0 && is_hex_text(value) {
        "destination hash must contain 32 hexadecimal characters"@
    } else {
        hex_complaint(value)
    }
}

pub fn parse_hash(value: &str) -> (r: Result<[u8; 16], String>)
    ensures
        r is Ok == is_hash_text(value@),
        r is Ok ==> r->Ok_0@ == hex_bytes(value@),
        r is Err ==> r->Err_0@ == bad_hash(value@),
{
    let bytes = match decode_hex(value) {
        Ok(bytes) => bytes,
        Err(complaint) => {
            return Err(complaint);
        },
    };
    if bytes.len() != 16 {
        return Err("destination hash must contain 32 hexadecimal characters".to_string());
    }
    let mut hash: [u8; 16] = [0u8;16];
    for i in 0..16
        invariant
            bytes@.len() == 16,
            forall|j: int| 0 <= j < i ==> hash@[j] == bytes@[j],
    {
        hash[i] = bytes[i];
    }
    assert(hash@ =~= bytes@);
    Ok(hash)
}

/// The way in which a message is to be delivered, by the way that was asked for.
pub open spec fn queued_method(requested: Seq<char>) -> Option<Seq<char>> {
    let method = lower(trim(requested));
    if method.len() == 0 || method == "auto"@ || method == "automatic"@ {
        Some("automatic"@)
    } else if method == "opportunistic"@ || method == "direct"@ || method == "propagated"@ {
        Some(method)
    } else {
        None
    }
}

/// Why a message cannot be queued.
#[derive(Debug, Clone, Copy, PartialEq, Eq, Structural)]
pub enum QueueError {
    UnknownMethod,
    NodeNotAllowed,
}

impl QueueError {
    /// The sentence shown for the error.
    pub fn message(&self) -> (r: String)
        ensures
            r@ == match *self {
                QueueError::UnknownMethod => "unknown LXMF delivery method"@,
                QueueError::NodeNotAllowed => {
                    "propagation_node is only valid for propagated delivery"@
                },
            },
    {
        match self {
            QueueError::UnknownMethod => "unknown LXMF delivery method".to_string(),
            QueueError::NodeNotAllowed => {
                "propagation_node is only valid for propagated delivery".to_string()
            },
        }
    }
}

pub open spec fn queue_fault(requested: Seq<char>, node: Option<Seq<u8>>) -> Option<QueueError> {
    match queued_method(requested) {
        None => Some(QueueError::UnknownMethod),
        Some(method) => if method != "propagated"@ && node.is_some() {
            Some(QueueError::NodeNotAllowed)
        } else {
            None
        },
    }
}

/// Whether a message waits to be sent to a recipient, with its words and by the way
/// that was asked for.
pub open spec fn is_queued_as(
    recipient: Seq<u8>,
    source: Seq<u8>,
    title: Seq<char>,
    content: Seq<char>,
    requested: Seq<char>,
    now: i64,
    message: NewMessage,
) -> bool {
    &&& message.destination_hash@ == hex_text(recipient)
    &&& message.source_hash@ == hex_text(source)
    &&& message.title@ == title
    &&& message.content@ == content
    &&& message.timestamp == now
    &&& message.outbound
    &&& message.state@ == "queued"@
    &&& queued_method(requested) == Some(message.delivery_method@)
    &&& message.attempts == 0
    &&& message.next_attempt == 0
    &&& message.last_error.is_none()
}

/// A message to be queued, and the propagation node asked for.
pub fn queue_outbound(
    recipient: &[u8; 16],
    source: &[u8; 16],
    title: String,
    content: String,
    requested_method: &str,
    propagation_node: &Option<[u8; 16]>,
    now: i64,
) -> (r: Result<(NewMessage, Option<String>), QueueError>)
    ensures
        r is Ok == queue_fault(requested_method@, hash_view(*propagation_node)).is_none(),
        r is Err ==> r->Err_0 == queue_fault(
            requested_method@,
            hash_view(*propagation_node),
        ).unwrap(),
        r is Ok ==> {
            let message = r->Ok_0.0;
            &&& message.destination_hash@ == hex_text(recipient@)
            &&& message.source_hash@ == hex_text(source@)
            &&& message.title == title
            &&& message.content == content
            &&& message.timestamp == now
            &&& message.outbound
            &&& message.state@ == "queued"@
            &&& message.delivery_method@ == queued_method(requested_method@).unwrap()
            &&& message.attempts == 0
            &&& message.next_attempt == 0
            &&& message.last_error.is_none()
            &&& message.message_hash.is_none()
            &&& text_view(r->Ok_0.1) == hash_text_view(*propagation_node)
        },
        r is Ok ==> is_queued_as(
            recipient@,
            source@,
            title@,
            content@,
            requested_method@,
            now,
            r->Ok_0.0,
        ),
{
    let asked = lower_text(trim_text(requested_method).as_str());
    let method = if asked.as_str().is_empty() || same_text(asked.as_str(), "auto") || same_text(
        asked.as_str(),
        "automatic",
    ) {
        "automatic".to_string()
    } else if same_text(asked.as_str(), "opportunistic") || same_text(asked.as_str(), "direct")
        || same_text(asked.as_str(), "propagated") {
        asked
    } else {
        return Err(QueueError::UnknownMethod);
    };
    if !same_text(method.as_str(), "propagated") && propagation_node.is_some() {
        return Err(QueueError::NodeNotAllowed);
    }
    Ok(
        (
            NewMessage {
                destination_hash: encode_hex(recipient),
                source_hash: encode_hex(source),
                title,
                content,
                timestamp: now,
                outbound: true,
                state: "queued".to_string(),
                delivery_method: method,
                attempts: 0,
                next_attempt: 0,
                last_error: None,
                message_hash: None,
            },
            hash_text(propagation_node),
        ),
    )
}

/// The ways in which a message leaves.
#[derive(Debug, Clone, Copy, PartialEq, Eq, Structural)]
pub enum SendVia {
    Opportunistic,
    Direct,
    Propagated,
}

pub open spec fn via_text(via: SendVia) -> Seq<char> {
    match via {
        SendVia::Opportunistic => "opportunistic"@,
        SendVia::Direct => "direct"@,
        SendVia::Propagated => "propagated"@,
    }
}

/// What happens in the course of an attempt to send a message.
#[derive(Debug)]
pub enum AttemptEvent {
    Begin,
    /// The propagation node that was chosen, if one is known.
    NodeChosen(Option<[u8; 16]>),
    Sent(SendVia),
    /// The message is too long for one packet.
    MtuExceeded(SendVia),
    Failed(String),
}

/// What to do next in an attempt.
#[derive(Debug)]
pub enum AttemptAction {
    ChooseNode,
    Send { via: SendVia, recipient: [u8; 16], node: Option<[u8; 16]> },
    Finish(Result<SendVia, String>),
}

pub enum AttemptModel {
    ChooseNode,
    Send { via: SendVia, recipient: Seq<u8>, node: Option<Seq<u8>> },
    Sent(SendVia),
    Failed(Seq<char>),
}

impl View for AttemptAction {
    type V = AttemptModel;

    open spec fn view(&self) -> AttemptModel {
        match *self {
            AttemptAction::ChooseNode => AttemptModel::ChooseNode,
            AttemptAction::Send { via, recipient, node } => AttemptModel::Send {
                via,
                recipient: recipient@,
                node: hash_view(node),
            },
            AttemptAction::Finish(Ok(via)) => AttemptModel::Sent(via),
            AttemptAction::Finish(Err(text)) => AttemptModel::Failed(text@),
        }
    }
}

/// The first step: by the way in which the message is to be delivered. An
/// automatic delivery begins with a single packet.
pub open spec fn attempt_begin(message: PendingMessage) -> AttemptModel {
    let recipient = hex_bytes(message.destination_hash@);
    let method = message.delivery_method@;
    if !is_hash_text(message.destination_hash@) {
        AttemptModel::Failed(bad_hash(message.destination_hash@))
    } else if method == "automatic"@ || method == "opportunistic"@ {
        AttemptModel::Send { via: SendVia::Opportunistic, recipient, node: None }
    } else if method == "direct"@ {
        AttemptModel::Send { via: SendVia::Direct, recipient, node: None }
    } else if method == "propagated"@ {
        match text_view(message.propagation_node) {
            None => AttemptModel::ChooseNode,
            Some(node) => if is_hash_text(node) {
                AttemptModel::Send {
                    via: SendVia::Propagated,
                    recipient,
                    node: Some(hex_bytes(node)),
                }
            } else {
                AttemptModel::Failed(bad_hash(node))
            },
        }
    } else {
        AttemptModel::Failed("unsupported queued delivery method "@ + method)
    }
}

/// The next step of an attempt. An automatic delivery goes over a link where one
/// packet is not enough.
pub open spec fn attempt_next(message: PendingMessage, event: AttemptEvent) -> AttemptModel {
    let recipient = hex_bytes(message.destination_hash@);
    match event {
        AttemptEvent::Begin => attempt_begin(message),
        AttemptEvent::NodeChosen(node) => if !is_hash_text(message.destination_hash@) {
            AttemptModel::Failed(bad_hash(message.destination_hash@))
        } else {
            match node {
                Some(node) => AttemptModel::Send {
                    via: SendVia::Propagated,
                    recipient,
                    node: Some(node@),
                },
                None => AttemptModel::Failed("no active propagation node is known"@),
            }
        },
        AttemptEvent::Sent(via) => AttemptModel::Sent(via),
        AttemptEvent::MtuExceeded(via) => if message.delivery_method@ == "automatic"@ && via
            == SendVia::Opportunistic && is_hash_text(message.destination_hash@) {
            AttemptModel::Send { via: SendVia::Direct, recipient, node: None }
        } else {
            AttemptModel::Failed("opportunistic message exceeds Reticulum MTU"@)
        },
        AttemptEvent::Failed(text) => AttemptModel::Failed(text@),
    }
}

fn begin_attempt(message: &PendingMessage) -> (r: AttemptAction)
    ensures
        r@ == attempt_begin(*message),
{
    let recipient = match parse_hash(message.destination_hash.as_str()) {
        Ok(recipient) => recipient,
        Err(complaint) => {
            return AttemptAction::Finish(Err(complaint));
        },
    };
    let method = message.delivery_method.as_str();
    if same_text(method, "automatic") || same_text(method, "opportunistic") {
        return AttemptAction::Send { via: SendVia::Opportunistic, recipient, node: None };
    }
    if same_text(method, "direct") {
        return AttemptAction::Send { via: SendVia::Direct, recipient, node: None };
    }
    if same_text(method, "propagated") {
        return match &message.propagation_node {
            None => AttemptAction::ChooseNode,
            Some(node) => match parse_hash(node.as_str()) {
                Ok(node) => AttemptAction::Send {
                    via: SendVia::Propagated,
                    recipient,
                    node: Some(node),
                },
                Err(complaint) => AttemptAction::Finish(Err(complaint)),
            },
        };
    }
    let mut text = "unsupported queued delivery method ".to_string();
    text.append(method);
    AttemptAction::Finish(Err(text))
}

/// Decides on the next step of an attempt to send a message.
pub fn attempt_outbound(message: &PendingMessage, event: AttemptEvent) -> (r: AttemptAction)
    ensures
        r@ == attempt_next(*message, event),
{
    match event {
        AttemptEvent::Begin => begin_attempt(message),
        AttemptEvent::NodeChosen(node) => match parse_hash(message.destination_hash.as_str()) {
            Err(complaint) => AttemptAction::Finish(Err(complaint)),
            Ok(recipient) => match node {
                Some(node) => AttemptAction::Send {
                    via: SendVia::Propagated,
                    recipient,
                    node: Some(node),
                },
                None => AttemptAction::Finish(
                    Err("no active propagation node is known".to_string()),
                ),
            },
        },
        AttemptEvent::Sent(via) => AttemptAction::Finish(Ok(via)),
        AttemptEvent::MtuExceeded(via) => {
            if same_text(message.delivery_method.as_str(), "automatic") && via
                == SendVia::Opportunistic {
                if let Ok(recipient) = parse_hash(message.destination_hash.as_str()) {
                    return AttemptAction::Send { via: SendVia::Direct, recipient, node: None };
                }
            }
            AttemptAction::Finish(Err("opportunistic message exceeds Reticulum MTU".to_string()))
        },
        AttemptEvent::Failed(text) => AttemptAction::Finish(Err(text)),
    }
}

/// What became of an attempt.
#[derive(Debug)]
pub struct OutboundAttemptResult {
    pub message: PendingMessage,
    pub method: String,
    pub result: Result<(), String>,
}

/// Whether a result says how an attempt ended.
pub open spec fn ended_as(
    message: PendingMessage,
    ended: Result<SendVia, String>,
    result: OutboundAttemptResult,
) -> bool {
    &&& result.message == message
    &&& match ended {
        Ok(via) => result.result is Ok && result.method@ == via_text(via),
        Err(text) => result.result == Err::<(), String>(text) && result.method@
            == message.delivery_method@,
    }
}

/// The result of an attempt that ended. A failed one keeps the way in which the
/// message was to be delivered.
pub fn attempt_result(message: PendingMessage, ended: Result<SendVia, String>) -> (r:
    OutboundAttemptResult)
    ensures
        r.message == message,
        r.result is Ok == ended is Ok,
        ended is Ok ==> r.method@ == via_text(ended->Ok_0),
        ended is Err ==> r.method == message.delivery_method && r.result == Err::<(), String>(
            ended->Err_0,
        ),
        ended_as(message, ended, r),
{
    match ended {
        Ok(via) => {
            let method = match via {
                SendVia::Opportunistic => "opportunistic".to_string(),
                SendVia::Direct => "direct".to_string(),
                SendVia::Propagated => "propagated".to_string(),
            };
            OutboundAttemptResult { message, method, result: Ok(()) }
        },
        Err(text) => {
            let method = message.delivery_method.clone();
            OutboundAttemptResult { message, method, result: Err(text) }
        },
    }
}

/// Whether `part` stands somewhere in `s`.
pub open spec fn has_part(s: Seq<char>, part: Seq<char>) -> bool {
    exists|i: int|
        0 <= i && i + part.len() <= s.len() && #[trigger] s.subrange(i, i + part.len()) == part
}

pub fn contains_text(s: &str, part: &str) -> (r: bool)
    ensures
        r == has_part(s@, part@),
{
    let all = chars_of(s);
    let wanted = chars_of(part);
    if wanted.len() > all.len() {
        return false;
    }
    let total: usize = all.len();
    let last: usize = total - wanted.len();
    let mut i: usize = 0;
    loop
        invariant
            total == all@.len(),
            all@ == s@,
            wanted@ == part@,
            wanted@.len() <= all@.len(),
            last == all@.len() - wanted@.len(),
            i <= last,
            forall|j: int| 0 <= j < i ==> #[trigger] s@.subrange(j, j + part@.len()) != part@,
        decreases last - i,
    {
        let here = slice_subrange(&all, i, i + wanted.len());
        assert(here@ =~= s@.subrange(i as int, i + part@.len()));
        if same_chars(here, &wanted) {
            return true;
        }
        if i == last {
            return false;
        }
        i = i + 1;
    }
}

/// What is stored of a message's delivery.
#[derive(Debug)]
pub struct DeliveryUpdate {
    pub id: i64,
    pub state: String,
    pub delivery_method: String,
    pub attempts: u32,
    pub next_attempt: i64,
    pub last_error: Option<String>,
}

pub struct UpdateModel {
    pub id: i64,
    pub state: Seq<char>,
    pub delivery_method: Seq<char>,
    pub attempts: u32,
    pub next_attempt: i64,
    pub last_error: Option<Seq<char>>,
}

impl View for DeliveryUpdate {
    type V = UpdateModel;

    open spec fn view(&self) -> UpdateModel {
        UpdateModel {
            id: self.id,
            state: self.state@,
            delivery_method: self.delivery_method@,
            attempts: self.attempts,
            next_attempt: self.next_attempt,
            last_error: text_view(self.last_error),
        }
    }
}

/// One attempt more, up to the largest number there is.
pub open spec fn one_more(attempts: u32) -> u32 {
    if attempts == u32::MAX {
        attempts
    } else {
        (attempts + 1) as u32
    }
}

pub open spec fn power_of_two(n: nat) -> nat
    decreases n,
{
    if n == 0 {
        1
    } else {
        2 * power_of_two((n - 1) as nat)
    }
}

/// How long to wait after a number of attempts, in seconds: five, doubled with
/// each attempt, five minutes at most.
pub open spec fn retry_delay(attempts: u32) -> int {
    let doubled = 5 * power_of_two(
        if attempts < 6 {
            attempts as nat
        } else {
            6
        },
    );
    if doubled < 300 {
        doubled as int
    } else {
        300
    }
}

fn delay_after(attempts: u32) -> (r: u64)
    ensures
        r == retry_delay(attempts),
{
    let doublings: u32 = if attempts < 6 {
        attempts
    } else {
        6
    };
    let mut delay: u64 = 5;
    for i in 0..doublings
        invariant
            doublings <= 6,
            delay == 5 * power_of_two(i as nat),
            delay <= 320,
    {
        assert(power_of_two((i + 1) as nat) == 2 * power_of_two(i as nat));
        assert(power_of_two(0) == 1 && power_of_two(1) == 2 && power_of_two(2) == 4
            && power_of_two(3) == 8 && power_of_two(4) == 16 && power_of_two(5) == 32
            && power_of_two(6) == 64) by {
            reveal_with_fuel(power_of_two, 7);
        }
        delay = delay * 2;
    }
    if delay < 300 {
        delay
    } else {
        300
    }
}

/// What is stored after an attempt. A message that was sent is delivered, or
/// lies with its propagation node. One that failed is tried again, up to five
/// times, unless it is too long.
pub open spec fn delivery_after(result: OutboundAttemptResult, now: i64) -> UpdateModel {
    let attempts = one_more(result.message.attempts);
    match result.result {
        Ok(_) => UpdateModel {
            id: result.message.id,
            state: if result.method@ == "propagated"@ {
                "stored_on_node"@
            } else {
                "delivered"@
            },
            delivery_method: result.method@,
            attempts,
            next_attempt: 0,
            last_error: None,
        },
        Err(text) => if attempts >= MAX_ATTEMPTS || has_part(text@, "exceeds Reticulum MTU"@) {
            UpdateModel {
                id: result.message.id,
                state: "failed"@,
                delivery_method: result.method@,
                attempts,
                next_attempt: 0,
                last_error: Some(text@),
            }
        } else {
            UpdateModel {
                id: result.message.id,
                state: "retrying"@,
                delivery_method: result.method@,
                attempts,
                next_attempt: saturating_sum(now as int, retry_delay(attempts)) as i64,
                last_error: Some(text@),
            }
        },
    }
}

/// Decides on what is stored after an attempt.
pub fn finish_outbound(result: OutboundAttemptResult, now: i64) -> (r: DeliveryUpdate)
    ensures
        r@ == delivery_after(result, now),
{
    let attempts: u32 = if result.message.attempts == u32::MAX {
        result.message.attempts
    } else {
        result.message.attempts + 1
    };
    let id = result.message.id;
    match result.result {
        Ok(_) => {
            let state = if same_text(result.method.as_str(), "propagated") {
                "stored_on_node".to_string()
            } else {
                "delivered".to_string()
            };
            DeliveryUpdate {
                id,
                state,
                delivery_method: result.method,
                attempts,
                next_attempt: 0,
                last_error: None,
            }
        },
        Err(text) => {
            if attempts >= MAX_ATTEMPTS || contains_text(text.as_str(), "exceeds Reticulum MTU") {
                DeliveryUpdate {
                    id,
                    state: "failed".to_string(),
                    delivery_method: result.method,
                    attempts,
                    next_attempt: 0,
                    last_error: Some(text),
                }
            } else {
                let delay: u64 = delay_after(attempts);
                DeliveryUpdate {
                    id,
                    state: "retrying".to_string(),
                    delivery_method: result.method,
                    attempts,
                    next_attempt: later(now, delay),
                    last_error: Some(text),
                }
            }
        },
    }
}

/// What is asked of the network service.
#[derive(Debug)]
pub enum NetworkCommand {
    SetAnnounceName { name: Option<String>, announce_now: bool },
    SendMessage(CheckedMessage),
    FetchPage { url: NomadUrl, reload: bool, fields: TextMap<String> },
    FetchFile { url: NomadUrl },
}

/// What the network service meets. A channel that closed gives nothing.
#[derive(Debug)]
pub enum NetworkEvent {
    Shutdown,
    Packet(Option<Vec<u8>>),
    Resource(Option<Vec<u8>>),
    Raw(Option<Vec<u8>>),
    Command(Option<NetworkCommand>),
    Announced(DirectoryKind, Option<Announce>),
    AttemptEnded(Option<OutboundAttemptResult>),
    Tick,
}

/// What the network service does next.
#[derive(Debug)]
pub enum NetworkAction {
    Stop,
    Wait,
    /// Take in a message.
    Receive(Vec<u8>),
    /// Take in a packet that may hold a message.
    ReceiveRaw(Vec<u8>),
    /// Carry out a command.
    Obey(NetworkCommand),
    /// Make a directory entry.
    Record(DirectoryKind, Announce),
    /// Store what became of an attempt.
    Store(DeliveryUpdate),
    /// Refresh the interfaces, ask the propagation node, send what waits.
    Poll,
}

/// What the network service remembers between two events. Times are in
/// milliseconds.
#[derive(Debug)]
pub struct NetworkLoop {
    pub selected_node: Option<[u8; 16]>,
    pub last_download: u64,
    pub outbound_active: bool,
}

/// What to do with the propagation node.
#[derive(Debug)]
pub struct NodeChoice {
    /// Make this the propagation node.
    pub select: Option<[u8; 16]>,
}

pub open spec fn action_fits(
    event: NetworkEvent,
    now: i64,
    action: NetworkAction,
) -> bool {
    match event {
        NetworkEvent::Shutdown => action is Stop,
        NetworkEvent::Packet(Some(payload)) => action == NetworkAction::Receive(payload),
        NetworkEvent::Resource(Some(payload)) => action == NetworkAction::Receive(payload),
        NetworkEvent::Raw(Some(raw)) => action == NetworkAction::ReceiveRaw(raw),
        NetworkEvent::Command(Some(command)) => action == NetworkAction::Obey(command),
        NetworkEvent::Command(None) => action is Stop,
        NetworkEvent::Announced(kind, Some(announce)) => action == NetworkAction::Record(
            kind,
            announce,
        ),
        NetworkEvent::AttemptEnded(Some(result)) => action matches NetworkAction::Store(update)
            && update@ == delivery_after(result, now),
        NetworkEvent::Tick => action is Poll,
        _ => action is Wait,
    }
}

/// What is stored of a message that is being sent.
pub open spec fn is_under_way(pending: PendingMessage, now: i64, update: UpdateModel) -> bool {
    &&& update.id == pending.id
    &&& update.state == "sending"@
    &&& update.delivery_method == pending.delivery_method@
    &&& update.attempts == pending.attempts
    &&& update.next_attempt == saturating_sum(now as int, SENDING_SECONDS as int)
    &&& update.last_error.is_none()
}

/// Which propagation node is taken, where another one is the best.
pub open spec fn node_taken(
    before: NetworkLoop,
    best: Option<[u8; 16]>,
    after: NetworkLoop,
    choice: NodeChoice,
) -> bool {
    let changed = best.is_some() && hash_view(best) != hash_view(before.selected_node);
    &&& after.selected_node == if changed {
        best
    } else {
        before.selected_node
    }
    &&& after.last_download == if changed {
        0
    } else {
        before.last_download
    }
    &&& after.outbound_active == before.outbound_active
    &&& choice.select == if changed {
        best
    } else {
        None
    }
}

/// Whether the propagation node is to be asked: there is one, nothing is under way and
/// the last time is long enough ago.
pub open spec fn is_download_due(last: u64, has_node: bool, now: u64, idle: bool) -> bool {
    has_node && idle && now - last >= DOWNLOAD_INTERVAL
}

impl NetworkLoop {
    pub fn new() -> (r: Self)
        ensures
            r.selected_node.is_none(),
            r.last_download == 0,
            !r.outbound_active,
    {
        NetworkLoop { selected_node: None, last_download: 0, outbound_active: false }
    }

    /// Decides on what to do about an event. `now` is in seconds.
    pub fn step(&mut self, event: NetworkEvent, now: i64) -> (r: NetworkAction)
        ensures
            action_fits(event, now, r),
            *final(self) == (NetworkLoop {
                outbound_active: old(self).outbound_active && !(event matches
                    NetworkEvent::AttemptEnded(Some(_))),
                ..*old(self)
            }),
    {
        match event {
            NetworkEvent::Shutdown => NetworkAction::Stop,
            NetworkEvent::Packet(Some(payload)) => NetworkAction::Receive(payload),
            NetworkEvent::Resource(Some(payload)) => NetworkAction::Receive(payload),
            NetworkEvent::Raw(Some(raw)) => NetworkAction::ReceiveRaw(raw),
            NetworkEvent::Command(Some(command)) => NetworkAction::Obey(command),
            NetworkEvent::Command(None) => NetworkAction::Stop,
            NetworkEvent::Announced(kind, Some(announce)) => NetworkAction::Record(kind, announce),
            NetworkEvent::AttemptEnded(Some(result)) => {
                self.outbound_active = false;
                NetworkAction::Store(finish_outbound(result, now))
            },
            NetworkEvent::Tick => NetworkAction::Poll,
            NetworkEvent::Packet(None) => NetworkAction::Wait,
            NetworkEvent::Resource(None) => NetworkAction::Wait,
            NetworkEvent::Raw(None) => NetworkAction::Wait,
            NetworkEvent::Announced(_, None) => NetworkAction::Wait,
            NetworkEvent::AttemptEnded(None) => NetworkAction::Wait,
        }
    }

    /// Takes the best propagation node there is. A new one is asked at once.
    pub fn choose_node(&mut self, best: Option<[u8; 16]>) -> (r: NodeChoice)
        ensures
            ({
                let changed = best.is_some() && hash_view(best) != hash_view(
                    old(self).selected_node,
                );
                &&& r.select == if changed {
                    best
                } else {
                    None
                }
                &&& *final(self) == if changed {
                    NetworkLoop { selected_node: best, last_download: 0, ..*old(self) }
                } else {
                    *old(self)
                }
            }),
            node_taken(*old(self), best, *final(self), r),
    {
        match best {
            None => NodeChoice { select: None },
            Some(node) => {
                let same = match &self.selected_node {
                    Some(current) => same_hash(current, &node),
                    None => false,
                };
                if same {
                    NodeChoice { select: None }
                } else {
                    self.selected_node = Some(node);
                    self.last_download = 0;
                    NodeChoice { select: Some(node) }
                }
            },
        }
    }

    /// Whether to download from the propagation node now. `now` is in
    /// milliseconds.
    pub fn download_due(&self, best: Option<[u8; 16]>, now: u64, idle: bool) -> (r: bool)
        ensures
            r == (best.is_some() && idle && now - self.last_download >= DOWNLOAD_INTERVAL),
            r == is_download_due(self.last_download, best.is_some(), now, idle),
    {
        best.is_some() && idle && now >= self.last_download && now - self.last_download
            >= DOWNLOAD_INTERVAL
    }

    /// Notes whether a download began.
    pub fn download_began(&mut self, began: bool, now: u64)
        ensures
            *final(self) == (NetworkLoop {
                last_download: if began {
                    now
                } else {
                    old(self).last_download
                },
                ..*old(self)
            }),
    {
        if began {
            self.last_download = now;
        }
    }

    /// Whether the next message may be sent.
    pub fn may_send(&self) -> (r: bool)
        ensures
            r == !self.outbound_active,
    {
        !self.outbound_active
    }

    /// Begins to send a message: it counts as under way for three minutes.
    pub fn begin_send(&mut self, pending: &PendingMessage, now: i64) -> (r: DeliveryUpdate)
        requires
            !old(self).outbound_active,
        ensures
            *final(self) == (NetworkLoop { outbound_active: true, ..*old(self) }),
            r@ == (UpdateModel {
                id: pending.id,
                state: "sending"@,
                delivery_method: pending.delivery_method@,
                attempts: pending.attempts,
                next_attempt: saturating_sum(now as int, SENDING_SECONDS as int) as i64,
                last_error: None,
            }),
            is_under_way(*pending, now, r@),
    {
        self.outbound_active = true;
        DeliveryUpdate {
            id: pending.id,
            state: "sending".to_string(),
            delivery_method: pending.delivery_method.clone(),
            attempts: pending.attempts,
            next_attempt: later(now, SENDING_SECONDS),
            last_error: None,
        }
    }
}

fn same_hash(a: &[u8; 16], b: &[u8; 16]) -> (r: bool)
    ensures
        r == (a@ == b@),
{
    for i in 0..16
        invariant
            forall|j: int| 0 <= j < i ==> a@[j] == b@[j],
    {
        if a[i] != b[i] {
            return false;
        }
    }
    assert(a@ =~= b@);
    true
}

/// Whether bytes begin with an address.
pub open spec fn begins_with(bytes: Seq<u8>, hash: Seq<u8>) -> bool {
    bytes.len() >= hash.len() && bytes.take(hash.len() as int) == hash
}

fn starts_with_hash(bytes: &[u8], hash: &[u8; 16]) -> (r: bool)
    ensures
        r == begins_with(bytes@, hash@),
{
    if bytes.len() < 16 {
        return false;
    }
    for i in 0..16
        invariant
            bytes@.len() >= 16,
            forall|j: int| 0 <= j < i ==> bytes@[j] == hash@[j],
    {
        if bytes[i] != hash[i] {
            assert(bytes@.take(16)[i as int] != hash@[i as int]);
            return false;
        }
    }
    assert(bytes@.take(16) =~= hash@);
    true
}

/// What stands behind the own address, where a payload begins with it.
pub open spec fn body_behind(payload: Seq<u8>, own: Seq<u8>) -> Option<Seq<u8>> {
    if begins_with(payload, own) {
        Some(payload.skip(own.len() as int))
    } else {
        None
    }
}

/// What stands behind the header of a packet that is for the own address.
pub open spec fn body_at(
    raw: Seq<u8>,
    offset: int,
    destination: Seq<u8>,
    own: Seq<u8>,
) -> Option<Seq<u8>> {
    if destination == own && offset < raw.len() {
        Some(raw.skip(offset))
    } else {
        None
    }
}

/// What of a payload from a propagation node is to be decrypted; nothing where
/// it is for another destination.
pub fn propagated_body<'a>(payload: &'a [u8], own: &[u8; 16]) -> (r: Option<&'a [u8]>)
    ensures
        r.is_some() == body_behind(payload@, own@).is_some(),
        r.is_some() ==> r.unwrap()@ == body_behind(payload@, own@).unwrap(),
        r.is_some() == begins_with(payload@, own@),
        r.is_some() ==> r.unwrap()@ == payload@.skip(16),
{
    if starts_with_hash(payload, own) {
        let body = slice_subrange(payload, 16, payload.len());
        assert(body@ =~= payload@.skip(16));
        Some(body)
    } else {
        None
    }
}

/// What of a raw packet is to be decrypted; nothing where it is for another
/// destination or holds nothing behind its header.
pub fn opportunistic_body<'a>(
    raw: &'a [u8],
    offset: usize,
    destination: &[u8; 16],
    own: &[u8; 16],
) -> (r: Option<&'a [u8]>)
    ensures
        r.is_some() == body_at(raw@, offset as int, destination@, own@).is_some(),
        r.is_some() ==> r.unwrap()@ == body_at(
            raw@,
            offset as int,
            destination@,
            own@,
        ).unwrap(),
        r.is_some() == (destination@ == own@ && offset < raw@.len()),
        r.is_some() ==> r.unwrap()@ == raw@.skip(offset as int),
{
    if same_hash(destination, own) && offset < raw.len() {
        let body = slice_subrange(raw, offset, raw.len());
        assert(body@ =~= raw@.skip(offset as int));
        Some(body)
    } else {
        None
    }
}

/// A decrypted message with its destination before it.
pub open spec fn addressed(plaintext: Seq<u8>, own: Seq<u8>) -> Seq<u8> {
    if begins_with(plaintext, own) {
        plaintext
    } else {
        own + plaintext
    }
}

pub fn with_destination(plaintext: Vec<u8>, own: &[u8; 16]) -> (r: Vec<u8>)
    ensures
        r@ == addressed(plaintext@, own@),
{
    if starts_with_hash(&plaintext, own) {
        return plaintext;
    }
    let mut rest = plaintext;
    let mut out: Vec<u8> = Vec::new();
    for i in 0..16
        invariant
            out@ == own@.take(i as int),
    {
        out.push(own[i]);
        assert(out@ =~= own@.take(i + 1));
    }
    assert(out@ =~= own@);
    out.append(&mut rest);
    out
}

/// Where the signing key stands in a public key: behind the first 32 bytes.
pub open spec fn signing_part(public_key: Option<Seq<u8>>) -> Option<Seq<u8>> {
    match public_key {
        Some(key) if key.len() >= 64 => Some(key.subrange(32, 64)),
        _ => None,
    }
}

pub fn signing_key(public_key: &Option<Vec<u8>>) -> (r: Option<[u8; 32]>)
    ensures
        key_view(r) == signing_part(crate::announce::data_view(*public_key)),
{
    match public_key {
        None => None,
        Some(key) => {
            if key.len() < 64 {
                return None;
            }
            let mut out: [u8; 32] = [0u8;32];
            for i in 0..32
                invariant
                    key@.len() >= 64,
                    forall|j: int| 0 <= j < i ==> out@[j] == key@[32 + j],
            {
                out[i] = key[32 + i];
            }
            assert(out@ =~= key@.subrange(32, 64));
            Some(out)
        },
    }
}

/// The state under which an arrived message is stored.
pub open spec fn inbound_state(key_known: bool, signed: bool) -> Seq<char> {
    if signed {
        "delivered"@
    } else if key_known {
        "invalid_signature"@
    } else {
        "source_unknown"@
    }
}

/// What is stored of an arrived message whose title and content are text.
pub open spec fn is_stored_as(message: UnpackedModel, key_known: bool, stored: NewMessage) -> bool {
    &&& stored.destination_hash@ == hex_text(message.source_hash)
    &&& stored.source_hash@ == hex_text(message.source_hash)
    &&& stored.title@ == decode_utf8(message.title)
    &&& stored.content@ == decode_utf8(message.content)
    &&& stored.timestamp == message.timestamp
    &&& !stored.outbound
    &&& stored.state@ == inbound_state(key_known, message.signed)
    &&& stored.delivery_method@ == "incoming"@
    &&& stored.attempts == 0
    &&& stored.next_attempt == 0
    &&& stored.last_error.is_none()
    &&& text_view(stored.message_hash) == Some(hex_text(message.message_hash))
}

/// What is stored of a message that has been read.
pub fn inbound_message(message: &UnpackedMessage, key_known: bool) -> (r: Option<NewMessage>)
    ensures
        r.is_some() == (valid_utf8(message.title@) && valid_utf8(message.content@)),
        r.is_some() ==> is_stored_as(message@, key_known, r.unwrap()),
{
    let title = match text_from_utf8(&message.title) {
        Some(title) => title.to_string(),
        None => {
            return None;
        },
    };
    let content = match text_from_utf8(&message.content) {
        Some(content) => content.to_string(),
        None => {
            return None;
        },
    };
    let state = if message.signed {
        "delivered".to_string()
    } else if key_known {
        "invalid_signature".to_string()
    } else {
        "source_unknown".to_string()
    };
    Some(
        NewMessage {
            destination_hash: encode_hex(&message.source_hash),
            source_hash: encode_hex(&message.source_hash),
            title,
            content,
            timestamp: message.timestamp,
            outbound: false,
            state,
            delivery_method: "incoming".to_string(),
            attempts: 0,
            next_attempt: 0,
            last_error: None,
            message_hash: Some(encode_hex(&message.message_hash)),
        },
    )
}

/// What is stored of the bytes of a message, by the public key that is known of
/// its source. Where none is known, the message never counts as delivered.
pub fn receive_message(payload: &[u8], public_key: &Option<Vec<u8>>) -> (r: Option<NewMessage>)
    ensures
        ({
            let key = signing_part(crate::announce::data_view(*public_key));
            let read = lxmf_unpacked(payload@, key);
            &&& r.is_some() == (read.is_some() && valid_utf8(read.unwrap().title) && valid_utf8(
                read.unwrap().content,
            ))
            &&& r.is_some() ==> is_stored_as(read.unwrap(), public_key.is_some(), r.unwrap())
        }),
        r.is_some() && public_key.is_none() ==> r.unwrap().state@ == "source_unknown"@,
        r.is_some() ==> payload@.len() > 96 && r.unwrap().destination_hash@ == hex_text(
            payload@.subrange(16, 32),
        ) && r.unwrap().source_hash@ == hex_text(payload@.subrange(16, 32))
            && !r.unwrap().outbound,
{
    let key = signing_key(public_key);
    match unpack_message(payload, &key) {
        Some(message) => inbound_message(&message, public_key.is_some()),
        None => None,
    }
}

/// A message that is stored already is not stored again.
pub fn deduplicated(message: NewMessage, seen: bool) -> (r: Option<NewMessage>)
    ensures
        r == if seen {
            None
        } else {
            Some(message)
        },
{
    if seen {
        None
    } else {
        Some(message)
    }
}

/// What is handed on to be read begins with the own address, once.
pub proof fn law_addressing_is_idempotent(plaintext: Seq<u8>, own: Seq<u8>)
    ensures
        begins_with(addressed(plaintext, own), own),
        addressed(addressed(plaintext, own), own) == addressed(plaintext, own),
{
    assert((own + plaintext).take(own.len() as int) =~= own);
}

/// A message is given up after five attempts at the latest, and before that only
/// where it is too long.
pub proof fn law_delivery_ends(result: OutboundAttemptResult, now: i64)
    ensures
        delivery_after(result, now).attempts >= MAX_ATTEMPTS ==> delivery_after(result, now).state
            != "retrying"@,
        delivery_after(result, now).attempts > result.message.attempts || result.message.attempts
            == u32::MAX,
        delivery_after(result, now).state == "failed"@ && delivery_after(result, now).attempts
            < MAX_ATTEMPTS ==> result.result is Err && has_part(
            result.result->Err_0@,
            "exceeds Reticulum MTU"@,
        ),
{
    lemma_states_differ();
}

proof fn lemma_states_differ()
    ensures
        "failed"@ != "retrying"@,
        "delivered"@ != "retrying"@,
        "stored_on_node"@ != "retrying"@,
        "delivered"@ != "failed"@,
        "stored_on_node"@ != "failed"@,
{
    reveal_strlit("failed");
    reveal_strlit("retrying");
    reveal_strlit("delivered");
    reveal_strlit("stored_on_node");
    assert("failed"@[0] == 'f');
    assert("retrying"@[0] == 'r');
    assert("delivered"@[0] == 'd');
    assert("stored_on_node"@[0] == 's');
}

/// The wait between attempts grows with each of them and is never longer than
/// five minutes.
pub proof fn law_retries_slow_down(attempts: u32)
    requires
        attempts < u32::MAX,
    ensures
        5 <= retry_delay(attempts) <= retry_delay((attempts + 1) as u32) <= 300,
{
    reveal_with_fuel(power_of_two, 7);
}

} // verus!

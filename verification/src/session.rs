//! The session: a state machine from the outcome of one transport or
//! terminal operation to the next operation. The driver around it performs
//! each operation and reports how it ended; the machine decides everything
//! else.
//!
//! The two roles differ only in who moves first. The listener sends its
//! public key and then reads the peer's; the connector reads and then sends.
//! Once the secret is agreed, the listener prompts for a line first, and the
//! connector waits for a frame first. From there both walk the same cycle:
//! prompt, send, read header, read body, show.

use crate::cipher::{crypt, xor_crypt};
use crate::frame::{encode_frame, frame_of, lemma_frame_len};
use crate::keys::{compute_shared_secret, shared_secret, DHKeys};
use crate::keystream::{state_after, LCG};
use crate::text::{decode_lossy, message, message_of, shown_text, trimmed};
use crate::wire::{
    be_bytes, be_value, decode_key, decode_length, encode_key, HEADER_LEN, KEY_LEN,
};
use vstd::prelude::*;

verus! {

/// Which end of the connection this process is. Fixed for its lifetime.
#[derive(Clone, Debug, PartialEq, Eq)]
pub enum Role {
    /// Accepts one connection on a port.
    Listener { port: u16 },
    /// Dials out to an address.
    Connector { address: String },
}

/// The four states of a session as a peer sees them.
#[derive(Clone, Copy, Debug, PartialEq, Eq, Structural)]
pub enum Phase {
    Connecting,
    KeyExchange,
    Established,
    Closed,
}

/// Why a session ended.
#[derive(Clone, Copy, Debug, PartialEq, Eq, Structural)]
pub enum Fault {
    /// The connection could not be set up.
    Setup,
    /// The peer went away, or sent too few bytes, during the key exchange.
    Handshake,
    /// A read or write failed once the session was established.
    Transport,
    /// A frame's length is above the session's ceiling.
    Oversize,
    /// The driver reported an outcome that the session was not waiting for.
    Unexpected,
}

/// Where a session stands: the operation that is under way, and what the
/// session holds at that point.
#[derive(Clone, Copy, Debug, PartialEq, Eq)]
pub enum Stage {
    /// The transport is being set up.
    Connecting,
    /// Our public key is being sent. `peer` is the peer's, if it came first.
    SendingKey { keys: DHKeys, peer: Option<u64> },
    /// The peer's public key is being read. `own` are our keys, if sent first.
    AwaitingKey { own: Option<DHKeys> },
    /// A line of input is being read.
    Prompting { cipher: LCG },
    /// A frame is being sent.
    Sending { cipher: LCG },
    /// The four bytes of a frame's length are being read.
    AwaitingHeader { cipher: LCG },
    /// The `length` bytes of a frame's ciphertext are being read.
    AwaitingBody { cipher: LCG, length: u32 },
    /// The peer's text is being shown.
    Showing { cipher: LCG },
    /// The session is over.
    Closed { fault: Fault },
}

/// How the operation that the session asked for ended.
#[derive(Clone, Debug, PartialEq, Eq)]
pub enum Event {
    /// The connection is up.
    Connected,
    /// All bytes of the last `Send` are written.
    Sent,
    /// The bytes read for the last `Receive`.
    Received(Vec<u8>),
    /// The line read for the last `ReadLine`, as it was typed.
    Line(String),
    /// The text of the last `Display` is out.
    Shown,
    /// The operation failed, or the peer is gone.
    Failed,
}

/// The operation that the session asks for next.
#[derive(Clone, Debug, PartialEq, Eq)]
pub enum Action {
    /// Accept one connection on this port.
    Listen { port: u16 },
    /// Connect to this address.
    Connect { address: String },
    /// Write all of these bytes.
    Send(Vec<u8>),
    /// Read exactly this many bytes.
    Receive(usize),
    /// Read one line of input.
    ReadLine,
    /// Show this text from the peer.
    Display(String),
    /// Stop: the session is over, for this reason.
    Close(Fault),
}

/// An event with its bytes and text as sequences.
pub enum EventView {
    Connected,
    Sent,
    Received(Seq<u8>),
    Line(Seq<char>),
    Shown,
    Failed,
}

/// An action with its bytes and text as sequences.
pub enum ActionView {
    Listen { port: u16 },
    Connect { address: Seq<char> },
    Send(Seq<u8>),
    Receive(nat),
    ReadLine,
    Display(Seq<char>),
    Close(Fault),
}

impl View for Event {
    type V = EventView;

    open spec fn view(&self) -> EventView {
        match *self {
            Event::Connected => EventView::Connected,
            Event::Sent => EventView::Sent,
            Event::Received(bytes) => EventView::Received(bytes@),
            Event::Line(text) => EventView::Line(text@),
            Event::Shown => EventView::Shown,
            Event::Failed => EventView::Failed,
        }
    }
}

impl View for Action {
    type V = ActionView;

    open spec fn view(&self) -> ActionView {
        match *self {
            Action::Listen { port } => ActionView::Listen { port },
            Action::Connect { address } => ActionView::Connect { address: address@ },
            Action::Send(bytes) => ActionView::Send(bytes@),
            Action::Receive(count) => ActionView::Receive(count as nat),
            Action::ReadLine => ActionView::ReadLine,
            Action::Display(text) => ActionView::Display(text@),
            Action::Close(fault) => ActionView::Close(fault),
        }
    }
}

impl Role {
    /// The listener moves first, in the key exchange and after it.
    pub open spec fn is_listener(self) -> bool {
        self is Listener
    }

    /// The operation that sets up this role's connection.
    pub open spec fn opening(self) -> ActionView {
        match self {
            Role::Listener { port } => ActionView::Listen { port },
            Role::Connector { address } => ActionView::Connect { address: address@ },
        }
    }

    /// Whether this role sends first.
    pub fn speaks_first(&self) -> (first: bool)
        ensures
            first == self.is_listener(),
    {
        match self {
            Role::Listener { .. } => true,
            Role::Connector { .. } => false,
        }
    }
}

impl Stage {
    /// The state of the session that a stage belongs to.
    pub open spec fn phase(self) -> Phase {
        match self {
            Stage::Connecting => Phase::Connecting,
            Stage::SendingKey { .. } | Stage::AwaitingKey { .. } => Phase::KeyExchange,
            Stage::Closed { .. } => Phase::Closed,
            _ => Phase::Established,
        }
    }

    /// What a failed operation means at this stage.
    pub open spec fn failure(self) -> Fault {
        match self {
            Stage::Connecting => Fault::Setup,
            Stage::SendingKey { .. } | Stage::AwaitingKey { .. } => Fault::Handshake,
            Stage::Closed { fault } => fault,
            _ => Fault::Transport,
        }
    }
}

/// The session ends with `fault`.
pub open spec fn closed(fault: Fault) -> (Stage, ActionView) {
    (Stage::Closed { fault }, ActionView::Close(fault))
}

/// The secret is agreed: the keystream starts from it, and the listener is
/// the first to speak.
pub open spec fn established(listener: bool, secret: u64) -> (Stage, ActionView) {
    if listener {
        (Stage::Prompting { cipher: LCG { state: secret } }, ActionView::ReadLine)
    } else {
        (Stage::AwaitingHeader { cipher: LCG { state: secret } }, ActionView::Receive(HEADER_LEN as nat))
    }
}

/// This peer's public key goes out.
pub open spec fn offering(keys: DHKeys, peer: Option<u64>) -> (Stage, ActionView) {
    (Stage::SendingKey { keys, peer }, ActionView::Send(be_bytes(keys.public as nat, KEY_LEN as nat)))
}

/// The connection is up: the listener makes its keys and sends the public
/// one, the connector waits for the listener's.
pub open spec fn after_connected(listener: bool, stage: Stage, fresh: DHKeys) -> (
    Stage,
    ActionView,
) {
    match stage {
        Stage::Connecting => if listener {
            offering(fresh, None)
        } else {
            (Stage::AwaitingKey { own: None }, ActionView::Receive(KEY_LEN as nat))
        },
        _ => closed(Fault::Unexpected),
    }
}

/// A write is done: after our key, read the peer's unless it came first;
/// after a frame, read the peer's frame.
pub open spec fn after_sent(listener: bool, stage: Stage) -> (Stage, ActionView) {
    match stage {
        Stage::SendingKey { keys, peer: None } => (
            Stage::AwaitingKey { own: Some(keys) },
            ActionView::Receive(KEY_LEN as nat),
        ),
        Stage::SendingKey { keys, peer: Some(public) } => established(
            listener,
            shared_secret(public, keys.private) as u64,
        ),
        Stage::Sending { cipher } => (Stage::AwaitingHeader { cipher }, ActionView::Receive(HEADER_LEN as nat)),
        _ => closed(Fault::Unexpected),
    }
}

/// The peer's public key came in, or what should have been it: anything
/// but eight bytes is fatal. With our key sent already the secret is agreed;
/// otherwise our key goes out now.
pub open spec fn after_key(listener: bool, own: Option<DHKeys>, bytes: Seq<u8>, fresh: DHKeys) -> (
    Stage,
    ActionView,
) {
    if bytes.len() != KEY_LEN {
        closed(Fault::Handshake)
    } else {
        match own {
            Some(keys) => established(
                listener,
                shared_secret(be_value(bytes) as u64, keys.private) as u64,
            ),
            None => offering(fresh, Some(be_value(bytes) as u64)),
        }
    }
}

/// A frame's length came in: anything but four bytes is fatal, and so is a
/// length above the ceiling. Otherwise that many bytes are read next.
pub open spec fn after_header(ceiling: u32, cipher: LCG, bytes: Seq<u8>) -> (Stage, ActionView) {
    if bytes.len() != HEADER_LEN {
        closed(Fault::Transport)
    } else if be_value(bytes) > ceiling {
        closed(Fault::Oversize)
    } else {
        (
            Stage::AwaitingBody { cipher, length: be_value(bytes) as u32 },
            ActionView::Receive(be_value(bytes)),
        )
    }
}

/// A frame's ciphertext came in: anything but the declared number of bytes
/// is fatal. Otherwise it is deciphered and shown.
pub open spec fn after_body(cipher: LCG, length: u32, bytes: Seq<u8>) -> (Stage, ActionView) {
    if bytes.len() != length {
        closed(Fault::Transport)
    } else {
        (
            Stage::Showing { cipher: LCG { state: state_after(cipher.state, bytes.len()) } },
            ActionView::Display(shown_text(crypt(bytes, cipher.state))),
        )
    }
}

/// Bytes came in: the peer's key, a frame's length, or a frame's ciphertext.
pub open spec fn after_received(
    listener: bool,
    ceiling: u32,
    stage: Stage,
    bytes: Seq<u8>,
    fresh: DHKeys,
) -> (Stage, ActionView) {
    match stage {
        Stage::AwaitingKey { own } => after_key(listener, own, bytes, fresh),
        Stage::AwaitingHeader { cipher } => after_header(ceiling, cipher, bytes),
        Stage::AwaitingBody { cipher, length } => after_body(cipher, length, bytes),
        _ => closed(Fault::Unexpected),
    }
}

/// A line was typed: one that is empty once trimmed is asked for again and
/// nothing is sent; any other is enciphered and framed, unless it is longer
/// than the ceiling.
pub open spec fn after_line(ceiling: u32, stage: Stage, line: Seq<char>) -> (Stage, ActionView) {
    match stage {
        Stage::Prompting { cipher } => match message(line) {
            None => (stage, ActionView::ReadLine),
            Some(bytes) => if bytes.len() > ceiling {
                closed(Fault::Oversize)
            } else {
                (
                    Stage::Sending {
                        cipher: LCG { state: state_after(cipher.state, bytes.len()) },
                    },
                    ActionView::Send(frame_of(crypt(bytes, cipher.state))),
                )
            },
        },
        _ => closed(Fault::Unexpected),
    }
}

/// The peer's text is out: it is this peer's turn to speak.
pub open spec fn after_shown(stage: Stage) -> (Stage, ActionView) {
    match stage {
        Stage::Showing { cipher } => (Stage::Prompting { cipher }, ActionView::ReadLine),
        _ => closed(Fault::Unexpected),
    }
}

/// The transition function: the stage that follows `stage` on `event`, and
/// the operation to perform next. A closed session stays closed; a failure
/// closes the session with the fault of its stage. `fresh` is the key pair
/// to use if this step makes one.
pub open spec fn step(
    listener: bool,
    ceiling: u32,
    stage: Stage,
    event: EventView,
    fresh: DHKeys,
) -> (Stage, ActionView) {
    if stage is Closed {
        closed(stage.failure())
    } else {
        match event {
            EventView::Failed => closed(stage.failure()),
            EventView::Connected => after_connected(listener, stage, fresh),
            EventView::Sent => after_sent(listener, stage),
            EventView::Received(bytes) => after_received(listener, ceiling, stage, bytes, fresh),
            EventView::Line(line) => after_line(ceiling, stage, line),
            EventView::Shown => after_shown(stage),
        }
    }
}

/// Whether the step from `stage` on `event` makes a key pair: the listener's
/// when the connection is up, the connector's when the peer's key has come.
pub open spec fn makes_keys(listener: bool, stage: Stage, event: EventView) -> bool {
    match (stage, event) {
        (Stage::Connecting, EventView::Connected) => listener,
        (Stage::AwaitingKey { own: None }, EventView::Received(bytes)) => bytes.len() == KEY_LEN,
        _ => false,
    }
}

/// One end of the channel.
#[derive(Clone, Debug, PartialEq, Eq)]
pub struct Session {
    pub role: Role,
    pub ceiling: u32,
    pub stage: Stage,
}

/// The key pair that a step uses: the one handed in, if any.
pub open spec fn chosen(fresh: Option<DHKeys>) -> DHKeys {
    match fresh {
        Some(keys) => keys,
        None => arbitrary(),
    }
}

/// Ends the session.
fn close(fault: Fault) -> (next: (Stage, Action))
    ensures
        (next.0, next.1@) == closed(fault),
{
    (Stage::Closed { fault }, Action::Close(fault))
}

/// Starts the keystream from the agreed secret; the listener speaks first.
fn establish(listener: bool, secret: u64) -> (next: (Stage, Action))
    ensures
        (next.0, next.1@) == established(listener, secret),
{
    let cipher = LCG::new(secret);
    if listener {
        (Stage::Prompting { cipher }, Action::ReadLine)
    } else {
        (Stage::AwaitingHeader { cipher }, Action::Receive(HEADER_LEN))
    }
}

/// Sends this peer's public key.
fn offer(keys: DHKeys, peer: Option<u64>) -> (next: (Stage, Action))
    ensures
        (next.0, next.1@) == offering(keys, peer),
{
    (Stage::SendingKey { keys, peer }, Action::Send(encode_key(keys.public)))
}

/// The fault that a failed operation means at `stage`.
fn failure_of(stage: Stage) -> (fault: Fault)
    ensures
        fault == stage.failure(),
{
    match stage {
        Stage::Connecting => Fault::Setup,
        Stage::SendingKey { .. } | Stage::AwaitingKey { .. } => Fault::Handshake,
        Stage::Closed { fault } => fault,
        _ => Fault::Transport,
    }
}

/// The step on `Connected`.
fn on_connected(listener: bool, stage: Stage, fresh: Option<DHKeys>) -> (next: (Stage, Action))
    requires
        makes_keys(listener, stage, EventView::Connected) ==> fresh is Some,
    ensures
        (next.0, next.1@) == after_connected(listener, stage, chosen(fresh)),
{
    match (stage, listener, fresh) {
        (Stage::Connecting, true, Some(keys)) => offer(keys, None),
        (Stage::Connecting, false, _) => (Stage::AwaitingKey { own: None }, Action::Receive(KEY_LEN)),
        _ => close(Fault::Unexpected),
    }
}

/// The step on `Sent`.
fn on_sent(listener: bool, stage: Stage) -> (next: (Stage, Action))
    ensures
        (next.0, next.1@) == after_sent(listener, stage),
{
    match stage {
        Stage::SendingKey { keys, peer: None } => (
            Stage::AwaitingKey { own: Some(keys) },
            Action::Receive(KEY_LEN),
        ),
        Stage::SendingKey { keys, peer: Some(public) } => establish(
            listener,
            compute_shared_secret(public, keys.private),
        ),
        Stage::Sending { cipher } => (Stage::AwaitingHeader { cipher }, Action::Receive(HEADER_LEN)),
        _ => close(Fault::Unexpected),
    }
}

/// The step on `Received` while the peer's key is awaited.
fn on_key(listener: bool, own: Option<DHKeys>, bytes: &[u8], fresh: Option<DHKeys>) -> (next: (
    Stage,
    Action,
))
    requires
        own is None && bytes@.len() == KEY_LEN ==> fresh is Some,
    ensures
        (next.0, next.1@) == after_key(listener, own, bytes@, chosen(fresh)),
{
    match (decode_key(bytes), own, fresh) {
        (None, _, _) => close(Fault::Handshake),
        (Some(public), Some(keys), _) => establish(
            listener,
            compute_shared_secret(public, keys.private),
        ),
        (Some(public), None, Some(keys)) => offer(keys, Some(public)),
        (Some(_), None, None) => close(Fault::Unexpected),
    }
}

/// The step on `Received` while a frame's length is awaited.
fn on_header(ceiling: u32, cipher: LCG, bytes: &[u8]) -> (next: (Stage, Action))
    ensures
        (next.0, next.1@) == after_header(ceiling, cipher, bytes@),
{
    match decode_length(bytes) {
        None => close(Fault::Transport),
        Some(length) => if length > ceiling {
            close(Fault::Oversize)
        } else {
            (Stage::AwaitingBody { cipher, length }, Action::Receive(length as usize))
        },
    }
}

/// The step on `Received` while a frame's ciphertext is awaited.
fn on_body(cipher: LCG, length: u32, bytes: &[u8]) -> (next: (Stage, Action))
    ensures
        (next.0, next.1@) == after_body(cipher, length, bytes@),
{
    if bytes.len() != length as usize {
        close(Fault::Transport)
    } else {
        let mut cipher: LCG = cipher;
        let plain: Vec<u8> = xor_crypt(bytes, &mut cipher);
        (Stage::Showing { cipher }, Action::Display(decode_lossy(plain.as_slice())))
    }
}

/// The step on `Received`.
fn on_received(
    listener: bool,
    ceiling: u32,
    stage: Stage,
    bytes: &[u8],
    fresh: Option<DHKeys>,
) -> (next: (Stage, Action))
    requires
        makes_keys(listener, stage, EventView::Received(bytes@)) ==> fresh is Some,
    ensures
        (next.0, next.1@) == after_received(listener, ceiling, stage, bytes@, chosen(fresh)),
{
    match stage {
        Stage::AwaitingKey { own } => on_key(listener, own, bytes, fresh),
        Stage::AwaitingHeader { cipher } => on_header(ceiling, cipher, bytes),
        Stage::AwaitingBody { cipher, length } => on_body(cipher, length, bytes),
        _ => close(Fault::Unexpected),
    }
}

/// The step on `Line`.
fn on_line(ceiling: u32, stage: Stage, line: &str) -> (next: (Stage, Action))
    ensures
        (next.0, next.1@) == after_line(ceiling, stage, line@),
{
    match stage {
        Stage::Prompting { cipher } => match message_of(line) {
            None => (stage, Action::ReadLine),
            Some(bytes) => {
                if bytes.len() > ceiling as usize {
                    return close(Fault::Oversize);
                }
                let mut cipher: LCG = cipher;
                let sealed: Vec<u8> = xor_crypt(bytes.as_slice(), &mut cipher);
                match encode_frame(sealed.as_slice()) {
                    Some(frame) => (Stage::Sending { cipher }, Action::Send(frame)),
                    None => close(Fault::Oversize),
                }
            },
        },
        _ => close(Fault::Unexpected),
    }
}

/// The step on `Shown`.
fn on_shown(stage: Stage) -> (next: (Stage, Action))
    ensures
        (next.0, next.1@) == after_shown(stage),
{
    match stage {
        Stage::Showing { cipher } => (Stage::Prompting { cipher }, Action::ReadLine),
        _ => close(Fault::Unexpected),
    }
}

/// A step that makes no key pair does not depend on the one it is handed.
pub proof fn lemma_step_ignores_unused_keys(
    listener: bool,
    ceiling: u32,
    stage: Stage,
    event: EventView,
    one: DHKeys,
    other: DHKeys,
)
    requires
        !makes_keys(listener, stage, event),
    ensures
        step(listener, ceiling, stage, event, one) == step(listener, ceiling, stage, event, other),
{
}

impl Session {
    /// A session for `role` that admits frames up to `ceiling` bytes, and the
    /// operation that sets up its connection.
    pub fn open(role: Role, ceiling: u32) -> (opened: (Session, Action))
        ensures
            opened.0.role == role,
            opened.0.ceiling == ceiling,
            opened.0.stage == Stage::Connecting,
            opened.1@ == role.opening(),
    {
        let first = match &role {
            Role::Listener { port } => Action::Listen { port: *port },
            Role::Connector { address } => Action::Connect { address: address.clone() },
        };
        (Session { role, ceiling, stage: Stage::Connecting }, first)
    }

    /// The state of the session.
    pub fn phase(&self) -> (phase: Phase)
        ensures
            phase == self.stage.phase(),
    {
        match self.stage {
            Stage::Connecting => Phase::Connecting,
            Stage::SendingKey { .. } | Stage::AwaitingKey { .. } => Phase::KeyExchange,
            Stage::Closed { .. } => Phase::Closed,
            _ => Phase::Established,
        }
    }

    /// Whether the step on `event` makes this peer's key pair.
    pub fn will_make_keys(&self, event: &Event) -> (makes: bool)
        ensures
            makes == makes_keys(self.role.is_listener(), self.stage, event@),
    {
        match (self.stage, event) {
            (Stage::Connecting, Event::Connected) => self.role.speaks_first(),
            (Stage::AwaitingKey { own: None }, Event::Received(bytes)) => bytes.len() == KEY_LEN,
            _ => false,
        }
    }

    /// The step on `event`, with `fresh` as the key pair where one is made.
    fn apply(&mut self, event: Event, fresh: Option<DHKeys>) -> (action: Action)
        requires
            makes_keys(old(self).role.is_listener(), old(self).stage, event@) ==> fresh is Some,
        ensures
            final(self).role == old(self).role,
            final(self).ceiling == old(self).ceiling,
            (final(self).stage, action@) == step(
                old(self).role.is_listener(),
                old(self).ceiling,
                old(self).stage,
                event@,
                chosen(fresh),
            ),
    {
        let listener: bool = self.role.speaks_first();
        let stage: Stage = self.stage;
        let (next, action) = match (stage, event) {
            (Stage::Closed { fault }, _) => close(fault),
            (_, Event::Failed) => close(failure_of(stage)),
            (_, Event::Connected) => on_connected(listener, stage, fresh),
            (_, Event::Sent) => on_sent(listener, stage),
            (_, Event::Received(bytes)) => on_received(
                listener,
                self.ceiling,
                stage,
                bytes.as_slice(),
                fresh,
            ),
            (_, Event::Line(line)) => on_line(self.ceiling, stage, line.as_str()),
            (_, Event::Shown) => on_shown(stage),
        };
        self.stage = next;
        action
    }

    /// Takes the step on `event` with `fresh` as the key pair, should the
    /// step make one. The outcome is the transition function's, exactly.
    pub fn advance(&mut self, event: Event, fresh: DHKeys) -> (action: Action)
        ensures
            final(self).role == old(self).role,
            final(self).ceiling == old(self).ceiling,
            (final(self).stage, action@) == step(
                old(self).role.is_listener(),
                old(self).ceiling,
                old(self).stage,
                event@,
                fresh,
            ),
    {
        self.apply(event, Some(fresh))
    }

    /// Takes the step on `event`, drawing a fresh key pair where the step
    /// makes one. At such a step the outcome is the transition function's
    /// for some fresh pair; at any other it is the transition function's
    /// whatever the pair.
    pub fn handle(&mut self, event: Event) -> (action: Action)
        ensures
            final(self).role == old(self).role,
            final(self).ceiling == old(self).ceiling,
            makes_keys(old(self).role.is_listener(), old(self).stage, event@) ==> exists|
                keys: DHKeys,
            |
                keys.fresh() && (final(self).stage, action@) == #[trigger] step(
                    old(self).role.is_listener(),
                    old(self).ceiling,
                    old(self).stage,
                    event@,
                    keys,
                ),
            !makes_keys(old(self).role.is_listener(), old(self).stage, event@) ==> forall|
                keys: DHKeys,
            |
                (final(self).stage, action@) == #[trigger] step(
                    old(self).role.is_listener(),
                    old(self).ceiling,
                    old(self).stage,
                    event@,
                    keys,
                ),
    {
        let fresh: Option<DHKeys> = if self.will_make_keys(&event) {
            Some(DHKeys::new())
        } else {
            None
        };
        let ghost before = *self;
        let ghost seen = event@;
        let action = self.apply(event, fresh);
        proof {
            if !makes_keys(before.role.is_listener(), before.stage, seen) {
                assert forall|keys: DHKeys|
                    (self.stage, action@) == #[trigger] step(
                        before.role.is_listener(),
                        before.ceiling,
                        before.stage,
                        seen,
                        keys,
                    ) by {
                    lemma_step_ignores_unused_keys(
                        before.role.is_listener(),
                        before.ceiling,
                        before.stage,
                        seen,
                        keys,
                        chosen(fresh),
                    );
                }
            }
        }
        action
    }
}

impl Phase {
    /// The place of a state in the order in which a session passes them.
    pub open spec fn rank(self) -> nat {
        match self {
            Phase::Connecting => 0,
            Phase::KeyExchange => 1,
            Phase::Established => 2,
            Phase::Closed => 3,
        }
    }
}

/// A line that is empty once trimmed is never sent: a prompting session asks
/// again and stays as it is, and no session answers it with a `Send`.
pub proof fn lemma_blank_line_not_sent(
    listener: bool,
    ceiling: u32,
    stage: Stage,
    line: Seq<char>,
    fresh: DHKeys,
)
    requires
        trimmed(line).len() == 0,
    ensures
        !(step(listener, ceiling, stage, EventView::Line(line), fresh).1 is Send),
        stage is Prompting ==> step(listener, ceiling, stage, EventView::Line(line), fresh) == (
            stage,
            ActionView::ReadLine,
        ),
{
}

/// A failure ends the session, with the fault of the state it was in: a peer
/// that goes away during the key exchange leaves a closed session and a
/// handshake fault, not a session that waits.
pub proof fn lemma_failure_closes(listener: bool, ceiling: u32, stage: Stage, fresh: DHKeys)
    ensures
        step(listener, ceiling, stage, EventView::Failed, fresh) == closed(stage.failure()),
        stage.phase() == Phase::Connecting ==> stage.failure() == Fault::Setup,
        stage.phase() == Phase::KeyExchange ==> stage.failure() == Fault::Handshake,
        stage.phase() == Phase::Established ==> stage.failure() == Fault::Transport,
{
}

/// A public key that comes short, or long, ends the key exchange.
pub proof fn lemma_short_key_closes(
    listener: bool,
    ceiling: u32,
    own: Option<DHKeys>,
    bytes: Seq<u8>,
    fresh: DHKeys,
)
    requires
        bytes.len() != KEY_LEN,
    ensures
        step(
            listener,
            ceiling,
            Stage::AwaitingKey { own },
            EventView::Received(bytes),
            fresh,
        ) == closed(Fault::Handshake),
{
}

/// A closed session stays closed, whatever it is told, and keeps its fault.
pub proof fn lemma_closed_is_final(
    listener: bool,
    ceiling: u32,
    fault: Fault,
    event: EventView,
    fresh: DHKeys,
)
    ensures
        step(listener, ceiling, Stage::Closed { fault }, event, fresh) == closed(fault),
{
}

/// A session never goes back: each step leaves it in the same state or in a
/// later one, in the order connecting, key exchange, established, closed.
pub proof fn lemma_phase_never_retreats(
    listener: bool,
    ceiling: u32,
    stage: Stage,
    event: EventView,
    fresh: DHKeys,
)
    ensures
        step(listener, ceiling, stage, event, fresh).0.phase().rank() >= stage.phase().rank(),
{
}

/// A session asks for no more bytes than its ceiling allows: a `Receive` is
/// for a key, a header, or a body within the ceiling.
pub proof fn lemma_receive_within_ceiling(
    listener: bool,
    ceiling: u32,
    stage: Stage,
    event: EventView,
    fresh: DHKeys,
)
    ensures
        step(listener, ceiling, stage, event, fresh).1 matches ActionView::Receive(count) ==> count
            == KEY_LEN || count == HEADER_LEN || count <= ceiling,
{
}

/// A session sends no frame above its ceiling: in an established session a
/// `Send` carries four bytes of length and at most `ceiling` bytes after them.
pub proof fn lemma_send_within_ceiling(
    listener: bool,
    ceiling: u32,
    stage: Stage,
    event: EventView,
    fresh: DHKeys,
)
    requires
        stage.phase() == Phase::Established,
    ensures
        step(listener, ceiling, stage, event, fresh).1 matches ActionView::Send(bytes)
            ==> bytes.len() <= HEADER_LEN + ceiling,
{
    if let ActionView::Send(bytes) = step(listener, ceiling, stage, event, fresh).1 {
        let line = event->Line_0;
        let plain = message(line).unwrap();
        lemma_frame_len(crypt(plain, stage->Prompting_cipher.state));
    }
}

} // verus!

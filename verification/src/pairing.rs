//! Two sessions facing each other: what the listener's and the connector's
//! steps amount to when each is told what the other sent.

use crate::cipher::{crypt, lemma_crypt_involution};
use crate::frame::{frame_of, lemma_frame_len};
use crate::keys::{lemma_shared_secret_agrees, shared_secret, DHKeys};
use crate::keystream::{state_after, LCG};
use crate::session::{step, ActionView, EventView, Stage};
use crate::text::{lemma_message_shown, message, trimmed};
use crate::wire::{
    be_bytes, lemma_be_bytes_len, lemma_key_round_trip, lemma_length_round_trip, HEADER_LEN,
};
use vstd::prelude::*;

verus! {

/// Where the listener stands once it has sent the public key of `own` and
/// read `reply` as the connector's.
pub open spec fn listener_after_handshake(ceiling: u32, own: DHKeys, reply: Seq<u8>) -> (
    Stage,
    ActionView,
) {
    let offered = step(true, ceiling, Stage::Connecting, EventView::Connected, own);
    let waiting = step(true, ceiling, offered.0, EventView::Sent, own);
    step(true, ceiling, waiting.0, EventView::Received(reply), own)
}

/// The bytes that the listener sends in the key exchange.
pub open spec fn listener_offer(ceiling: u32, own: DHKeys) -> ActionView {
    step(true, ceiling, Stage::Connecting, EventView::Connected, own).1
}

/// Where the connector stands once it has read `offer` as the listener's
/// public key and sent that of `own`.
pub open spec fn connector_after_handshake(ceiling: u32, own: DHKeys, offer: Seq<u8>) -> (
    Stage,
    ActionView,
) {
    let waiting = step(false, ceiling, Stage::Connecting, EventView::Connected, own);
    let replied = step(false, ceiling, waiting.0, EventView::Received(offer), own);
    step(false, ceiling, replied.0, EventView::Sent, own)
}

/// The bytes that the connector sends in the key exchange, having read
/// `offer`.
pub open spec fn connector_reply(ceiling: u32, own: DHKeys, offer: Seq<u8>) -> ActionView {
    let waiting = step(false, ceiling, Stage::Connecting, EventView::Connected, own);
    step(false, ceiling, waiting.0, EventView::Received(offer), own).1
}

/// The key exchange agrees. The listener sends its public key and the
/// connector answers with its own; when each has been told what the other
/// sent, both are established with the same keystream, seeded by the shared
/// secret, and the listener is the one who prompts while the connector waits
/// for a frame.
pub proof fn lemma_handshake_agrees(
    listener_ceiling: u32,
    connector_ceiling: u32,
    listener_keys: DHKeys,
    connector_keys: DHKeys,
)
    requires
        listener_keys.wf(),
        connector_keys.wf(),
    ensures
        ({
            let secret = shared_secret(connector_keys.public, listener_keys.private) as u64;
            let offer = be_bytes(listener_keys.public as nat, 8);
            let reply = be_bytes(connector_keys.public as nat, 8);
            let cipher = LCG { state: secret };
            &&& secret == shared_secret(listener_keys.public, connector_keys.private)
            &&& listener_offer(listener_ceiling, listener_keys) == ActionView::Send(offer)
            &&& connector_reply(connector_ceiling, connector_keys, offer) == ActionView::Send(
                reply,
            )
            &&& listener_after_handshake(listener_ceiling, listener_keys, reply) == (
                Stage::Prompting { cipher },
                ActionView::ReadLine,
            )
            &&& connector_after_handshake(connector_ceiling, connector_keys, offer) == (
                Stage::AwaitingHeader { cipher },
                ActionView::Receive(HEADER_LEN as nat),
            )
        }),
{
    lemma_shared_secret_agrees(listener_keys, connector_keys);
    lemma_key_round_trip(listener_keys.public);
    lemma_key_round_trip(connector_keys.public);
    vstd::arithmetic::div_mod::lemma_mod_bound(
        vstd::arithmetic::power::pow(
            connector_keys.public as int,
            listener_keys.private as nat,
        ),
        crate::keys::P as int,
    );
}

/// A line reaches the peer. The speaker prompts and the hearer waits for a
/// frame, both with the keystream in the same state. For a line that is not
/// blank and fits under both ceilings: the speaker sends one frame; the
/// hearer, given the frame's first four bytes and then the rest, shows the
/// trimmed line; and the two have swapped places, again with the keystream
/// in the same state, moved by the length of the message.
pub proof fn lemma_line_delivered(
    speaker_listens: bool,
    hearer_listens: bool,
    speaker_ceiling: u32,
    hearer_ceiling: u32,
    cipher: LCG,
    line: Seq<char>,
    fresh: DHKeys,
)
    requires
        message(line) is Some,
        message(line).unwrap().len() <= speaker_ceiling,
        message(line).unwrap().len() <= hearer_ceiling,
    ensures
        ({
            let plain = message(line).unwrap();
            let frame = frame_of(crypt(plain, cipher.state));
            let moved = LCG { state: state_after(cipher.state, plain.len()) };
            let spoken = step(
                speaker_listens,
                speaker_ceiling,
                Stage::Prompting { cipher },
                EventView::Line(line),
                fresh,
            );
            let sent = step(speaker_listens, speaker_ceiling, spoken.0, EventView::Sent, fresh);
            let headed = step(
                hearer_listens,
                hearer_ceiling,
                Stage::AwaitingHeader { cipher },
                EventView::Received(frame.take(4)),
                fresh,
            );
            let heard = step(
                hearer_listens,
                hearer_ceiling,
                headed.0,
                EventView::Received(frame.skip(4)),
                fresh,
            );
            let shown = step(hearer_listens, hearer_ceiling, heard.0, EventView::Shown, fresh);
            &&& spoken.1 == ActionView::Send(frame)
            &&& frame.len() == 4 + plain.len()
            &&& headed.1 == ActionView::Receive(plain.len())
            &&& heard.1 == ActionView::Display(trimmed(line))
            &&& sent == (Stage::AwaitingHeader { cipher: moved }, ActionView::Receive(HEADER_LEN as nat))
            &&& shown == (Stage::Prompting { cipher: moved }, ActionView::ReadLine)
        }),
{
    let plain = message(line).unwrap();
    let sealed = crypt(plain, cipher.state);
    let frame = frame_of(sealed);
    lemma_frame_len(sealed);
    lemma_be_bytes_len(sealed.len(), 4);
    lemma_length_round_trip(sealed.len() as u32);
    assert(frame.take(4) =~= be_bytes(sealed.len(), 4));
    assert(frame.skip(4) =~= sealed);
    lemma_crypt_involution(plain, cipher.state);
    lemma_message_shown(line);
}

} // verus!

//! The bridge between the transport and the tick of the simulation.

pub mod client;

use crate::hass::protocol::{envelope_json, nth_id, HassRequest, HassResponse, ResponseView};
use crate::hass::responses_view;
use crate::json::render::rendered;
use crate::ws::client::{frame_outcome, Client};
use vstd::prelude::*;

verus! {

/// The texts of a run of messages; `None` for a message without text.
pub open spec fn texts_view(texts: Seq<Option<String>>) -> Seq<Option<Seq<char>>> {
    Seq::new(
        texts.len(),
        |i: int|
            match texts[i] {
                Some(t) => Some(t@),
                None => None,
            },
    )
}

/// What the simulation gets of a run of inbound messages, given the text of
/// each: the response of every message whose text decodes, in the order of
/// arrival. A message that does not decode is passed over and the ones
/// behind it still count.
pub open spec fn delivered(texts: Seq<Option<Seq<char>>>) -> Seq<ResponseView>
    decreases texts.len(),
{
    if texts.len() == 0 {
        Seq::empty()
    } else {
        match frame_outcome(texts.last()) {
            Some(response) => delivered(texts.drop_last()).push(response),
            None => delivered(texts.drop_last()),
        }
    }
}

/// Decodes a run of inbound messages, given the text of each: every message
/// whose text decodes gives its response, in the order of arrival; the
/// others are dropped, and what follows them is decoded all the same.
pub fn deliver_all(texts: &Vec<Option<String>>) -> (responses: Vec<HassResponse>)
    ensures
        responses_view(responses@) == delivered(texts_view(texts@)),
        responses.len() <= texts.len(),
{
    let ghost all = texts_view(texts@);
    let mut responses: Vec<HassResponse> = Vec::new();
    let mut i: usize = 0;
    while i < texts.len()
        invariant
            i <= texts.len(),
            all == texts_view(texts@),
            responses_view(responses@) == delivered(all.take(i as int)),
            responses.len() <= i,
        decreases texts.len() - i,
    {
        let ghost seen = all.take(i as int);
        let ghost now = all.take(i + 1);
        assert(now.drop_last() =~= seen);
        assert(now.last() == all[i as int]);
        let ghost before = responses_view(responses@);
        let outcome = match &texts[i] {
            Some(text) => Client::decode_frame(Some(text.as_str())),
            None => Client::decode_frame(None),
        };
        match outcome {
            Some(response) => {
                responses.push(response);
                assert(responses_view(responses@) =~= before.push(response@));
            },
            None => {},
        }
        i += 1;
    }
    assert(all.take(i as int) =~= all);
    responses
}

/// What one tick of the bridge did.
#[derive(Debug, PartialEq, Eq)]
pub struct Tick {
    /// The responses received, in the order of arrival.
    pub inbound: Vec<HassResponse>,
    /// How many inbound messages were taken and dropped because they did
    /// not decode.
    pub dropped: usize,
    /// The frames of the outbound requests, in order, as they were handed
    /// to the outbound queue.
    pub frames: Vec<String>,
    /// How many of the frames the outbound queue did not take, being
    /// closed.
    pub unsent: usize,
}

/// One tick of the bridge.
///
/// First the inbound queue is emptied: messages are taken until it has
/// nothing more to give, and what comes of them is what [`deliver_all`]
/// makes of their texts, so that a dropped message does not hold up the
/// ones behind it. Then every request of `outbound` is encoded, in order,
/// each with the next id of the client, and each frame is put on the
/// outbound queue.
pub fn handle_messages(client: &mut Client, outbound: &Vec<HassRequest>) -> (tick: Tick)
    ensures
        exists|texts: Seq<Option<Seq<char>>>|
            responses_view(tick.inbound@) == delivered(texts) && tick.dropped == texts.len()
                - tick.inbound.len(),
        tick.frames.len() == outbound.len(),
        forall|i: int|
            0 <= i < outbound.len() ==> (#[trigger] tick.frames[i])@ == rendered(
                envelope_json(nth_id(old(client).next_id(), i as nat), outbound[i]@),
            ),
        tick.unsent <= outbound.len(),
        final(client).next_id() == nth_id(old(client).next_id(), outbound.len() as nat),
        final(client).outbound() == old(client).outbound(),
{
    let mut texts: Vec<Option<String>> = Vec::new();
    // A vector cannot hold more than `usize::MAX` texts, which bounds the
    // loop.
    while texts.len() < usize::MAX
        invariant
            client.next_id() == old(client).next_id(),
            client.outbound() == old(client).outbound(),
        decreases usize::MAX - texts.len(),
    {
        match client.take_text() {
            Some(text) => {
                texts.push(text);
            },
            None => {
                break ;
            },
        }
    }
    let inbound = deliver_all(&texts);
    let dropped = texts.len() - inbound.len();
    let frames = client.next_frames(outbound);
    let mut unsent: usize = 0;
    let mut i: usize = 0;
    while i < frames.len()
        invariant
            i <= frames.len(),
            unsent <= i,
        decreases frames.len() - i,
    {
        if !client.put_frame(frames[i].clone()) {
            unsent += 1;
        }
        i += 1;
    }
    proof {
        assert(responses_view(inbound@) == delivered(texts_view(texts@)));
    }
    Tick { inbound, dropped, frames, unsent }
}

} // verus!

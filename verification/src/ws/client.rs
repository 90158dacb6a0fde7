//! The simulation's end of the transport: two queues shared with the
//! network task, and the decisions of that task's two halves.
//!
//! The queues are `futures` channels of websocket messages. What arrives on
//! them depends on the network task, so the functions that touch them
//! promise little; what is done with a message once it is here is stated in
//! full by [`Client::classify`] and [`Client::decode_frame`], and what is
//! sent by [`Client::next_frame`] and [`Client::next_frames`].

use crate::hass::protocol::{
    envelope_json, id_after, nth_id, response_of_text, DecodeError, HassRequest, HassResponse,
    HassWrapper, IdCounter, ResponseView,
};
use crate::json::render::rendered;
use vstd::prelude::*;

verus! {

#[verifier::external_type_specification]
#[verifier::external_body]
#[verifier::reject_recursive_types(T)]
pub struct ExUnboundedReceiver<T>(futures::channel::mpsc::UnboundedReceiver<T>);

#[verifier::external_type_specification]
#[verifier::external_body]
#[verifier::reject_recursive_types(T)]
pub struct ExUnboundedSender<T>(futures::channel::mpsc::UnboundedSender<T>);

#[verifier::external_type_specification]
#[verifier::external_body]
pub struct ExMessage(tokio_tungstenite::tungstenite::Message);

/// Takes the next message off a queue with `UnboundedReceiver::try_recv`,
/// which does not block. `None` where the queue is empty, closed or not.
/// What is there depends on the sending task: nothing is promised of it.
#[verifier::external_body]
fn take_message(
    queue: &mut futures::channel::mpsc::UnboundedReceiver<tokio_tungstenite::tungstenite::Message>,
) -> (message: Option<tokio_tungstenite::tungstenite::Message>) {
    queue.try_recv().ok()
}

/// Puts a message on a queue with `UnboundedSender::unbounded_send`, which
/// does not block. `false` where the receiving end is gone.
#[verifier::external_body]
fn put_message(
    queue: &futures::channel::mpsc::UnboundedSender<tokio_tungstenite::tungstenite::Message>,
    message: tokio_tungstenite::tungstenite::Message,
) -> (taken: bool) {
    queue.unbounded_send(message).is_ok()
}

/// The text of a websocket message, by `Message::to_text`, which also reads
/// binary payloads as UTF-8. `None` where the payload is no UTF-8.
#[verifier::external_body]
fn message_text(message: &tokio_tungstenite::tungstenite::Message) -> (text: Option<String>) {
    message.to_text().ok().map(str::to_owned)
}

/// A websocket text message that holds `text`: `Message::Text`.
#[verifier::external_body]
fn text_message(text: String) -> (message: tokio_tungstenite::tungstenite::Message) {
    tokio_tungstenite::tungstenite::Message::Text(text)
}

/// The simulation's handle on a session: the inbound queue, the outbound
/// queue and the counter of correlation ids.
pub struct Client {
    rx: futures::channel::mpsc::UnboundedReceiver<tokio_tungstenite::tungstenite::Message>,
    tx: futures::channel::mpsc::UnboundedSender<tokio_tungstenite::tungstenite::Message>,
    ids: IdCounter,
}

/// The model of an optional response.
pub open spec fn delivered_view(response: Option<HassResponse>) -> Option<ResponseView> {
    match response {
        Some(r) => Some(r@),
        None => None,
    }
}

/// What the simulation gets for the text of an inbound message: the
/// response that it decodes to, and nothing where there is no text or the
/// text does not decode.
pub open spec fn frame_outcome(text: Option<Seq<char>>) -> Option<ResponseView> {
    match text {
        Some(t) => match response_of_text(t) {
            Ok(r) => Some(r),
            Err(_) => None,
        },
        None => None,
    }
}

/// Whether some text frame decodes to `response`.
pub open spec fn is_decoded(response: ResponseView) -> bool {
    exists|text: Seq<char>| response_of_text(text) == Ok::<ResponseView, DecodeError>(response)
}

/// View of an optional text.
pub open spec fn text_view(text: Option<&str>) -> Option<Seq<char>> {
    match text {
        Some(t) => Some(t@),
        None => None,
    }
}

/// What one look at the inbound queue gave.
#[derive(Debug, PartialEq, Eq)]
pub enum Received {
    /// The queue had nothing to give.
    Nothing,
    /// A message was taken and dropped: it had no text, or its text does not
    /// decode. This is worth a line in the log.
    Dropped,
    /// A message was taken and decoded to this response.
    Response(HassResponse),
}

/// Mathematical model of a [`Received`].
pub enum ReceivedView {
    Nothing,
    Dropped,
    Response(ResponseView),
}

impl View for Received {
    type V = ReceivedView;

    open spec fn view(&self) -> ReceivedView {
        match self {
            Received::Nothing => ReceivedView::Nothing,
            Received::Dropped => ReceivedView::Dropped,
            Received::Response(r) => ReceivedView::Response(r@),
        }
    }
}

/// What is made of what was taken off the inbound queue. `taken` is `None`
/// where the queue had nothing, else the text of the message taken, if it
/// has one. A message is delivered as the response that its text decodes
/// to, and dropped where there is none.
pub open spec fn received(taken: Option<Option<Seq<char>>>) -> ReceivedView {
    match taken {
        None => ReceivedView::Nothing,
        Some(text) => match frame_outcome(text) {
            Some(r) => ReceivedView::Response(r),
            None => ReceivedView::Dropped,
        },
    }
}

/// View of what was taken off the inbound queue.
pub open spec fn taken_view(taken: Option<Option<String>>) -> Option<Option<Seq<char>>> {
    match taken {
        None => None,
        Some(None) => Some(None),
        Some(Some(t)) => Some(Some(t@)),
    }
}

impl Client {
    /// The correlation id that the next request gets.
    pub closed spec fn next_id(&self) -> i32 {
        self.ids.next
    }

    /// A handle on the queues `rx` and `tx` of a session, with ids from 1.
    pub fn new(
        rx: futures::channel::mpsc::UnboundedReceiver<tokio_tungstenite::tungstenite::Message>,
        tx: futures::channel::mpsc::UnboundedSender<tokio_tungstenite::tungstenite::Message>,
    ) -> (client: Client)
        ensures
            client.inbound() == rx,
            client.outbound() == tx,
            client.next_id() == 1,
    {
        Client { rx, tx, ids: IdCounter::new() }
    }

    /// What the simulation gets for the text of an inbound message: the
    /// response that it decodes to, and nothing where there is no text or
    /// the text does not decode, so that such a frame is dropped.
    pub fn decode_frame(text: Option<&str>) -> (response: Option<HassResponse>)
        ensures
            delivered_view(response) == frame_outcome(text_view(text)),
    {
        match text {
            Some(t) => match HassResponse::decode(t) {
                Ok(response) => Some(response),
                Err(_) => None,
            },
            None => None,
        }
    }

    /// Takes at most one message off the inbound queue, without blocking,
    /// and decodes it as [`Client::decode_frame`] says. `None` where the
    /// queue is empty and where the message was dropped. Whatever the queue
    /// held, a response that comes out is one that a frame decodes to, and
    /// the counter of ids is left alone.
    pub fn try_recv(&mut self) -> (response: Option<HassResponse>)
        ensures
            response matches Some(r) ==> is_decoded(r@),
            final(self).next_id() == old(self).next_id(),
    {
        match self.receive() {
            Received::Response(response) => Some(response),
            _ => None,
        }
    }

    /// Takes at most one message off the inbound queue, without blocking:
    /// `None` where the queue has nothing to give, else the text of the
    /// message, if it has one. What the queue holds is the network task's
    /// doing; the outbound queue and the counter of ids are left alone.
    pub fn take_text(&mut self) -> (taken: Option<Option<String>>)
        ensures
            final(self).next_id() == old(self).next_id(),
            final(self).outbound() == old(self).outbound(),
    {
        match take_message(&mut self.rx) {
            None => None,
            Some(message) => Some(message_text(&message)),
        }
    }

    /// What is made of what was taken off the inbound queue: nothing of
    /// nothing, a response of a text that decodes, a drop of anything else.
    pub fn classify(taken: &Option<Option<String>>) -> (outcome: Received)
        ensures
            outcome@ == received(taken_view(*taken)),
    {
        match taken {
            None => Received::Nothing,
            Some(None) => Received::Dropped,
            Some(Some(text)) => match Client::decode_frame(Some(text.as_str())) {
                Some(response) => Received::Response(response),
                None => Received::Dropped,
            },
        }
    }

    /// Takes at most one message off the inbound queue, without blocking,
    /// and says what became of it, so that a dropped message can be told
    /// from an empty queue. Whatever the queue held, the outcome is what
    /// [`Client::classify`] makes of it.
    pub fn receive(&mut self) -> (outcome: Received)
        ensures
            exists|taken: Option<Option<Seq<char>>>| outcome@ == received(taken),
            outcome matches Received::Response(r) ==> is_decoded(r@),
            final(self).next_id() == old(self).next_id(),
            final(self).outbound() == old(self).outbound(),
    {
        let taken = self.take_text();
        let outcome = Client::classify(&taken);
        proof {
            assert(outcome@ == received(taken_view(taken)));
            if outcome is Response {
                let text = taken->Some_0->Some_0@;
                assert(response_of_text(text) == Ok::<ResponseView, DecodeError>(
                    outcome->Response_0@,
                ));
            }
        }
        outcome
    }

    /// The text frame of `msg` with the next correlation id.
    pub fn next_frame(&mut self, msg: HassRequest) -> (frame: String)
        ensures
            frame@ == rendered(envelope_json(old(self).next_id(), msg@)),
            final(self).next_id() == id_after(old(self).next_id()),
            final(self).inbound() == old(self).inbound(),
            final(self).outbound() == old(self).outbound(),
    {
        let wrapper = HassWrapper::new(&mut self.ids, msg);
        wrapper.encode()
    }

    /// Encodes `msg` with the next correlation id and puts the frame on the
    /// outbound queue, without blocking. `false` where the queue is closed;
    /// the id is used up all the same.
    pub fn send(&mut self, msg: HassRequest) -> (queued: bool)
        ensures
            final(self).next_id() == id_after(old(self).next_id()),
    {
        let frame = self.next_frame(msg);
        put_message(&self.tx, text_message(frame))
    }

    /// The text frames of `outbound`, in order, each with the next
    /// correlation id: the first request gets the id that is due, the one
    /// after it the id after that, and so on.
    pub fn next_frames(&mut self, outbound: &Vec<HassRequest>) -> (frames: Vec<String>)
        ensures
            frames.len() == outbound.len(),
            forall|i: int|
                0 <= i < outbound.len() ==> (#[trigger] frames[i])@ == rendered(
                    envelope_json(nth_id(old(self).next_id(), i as nat), outbound[i]@),
                ),
            final(self).next_id() == nth_id(old(self).next_id(), outbound.len() as nat),
            final(self).inbound() == old(self).inbound(),
            final(self).outbound() == old(self).outbound(),
    {
        let ghost first = self.next_id();
        let mut frames: Vec<String> = Vec::new();
        let mut i: usize = 0;
        while i < outbound.len()
            invariant
                i <= outbound.len(),
                frames.len() == i,
                self.next_id() == nth_id(first, i as nat),
                self.inbound() == old(self).inbound(),
                self.outbound() == old(self).outbound(),
                forall|k: int|
                    0 <= k < i ==> (#[trigger] frames[k])@ == rendered(
                        envelope_json(nth_id(first, k as nat), outbound[k]@),
                    ),
            decreases outbound.len() - i,
        {
            let frame = self.next_frame(outbound[i].clone());
            frames.push(frame);
            i += 1;
        }
        frames
    }

    /// Puts a frame on the outbound queue, without blocking. `false` where
    /// the queue is closed, which is worth a line in the log.
    pub fn put_frame(&self, frame: String) -> (queued: bool) {
        put_message(&self.tx, text_message(frame))
    }

    /// The queue that inbound messages are taken from.
    pub closed spec fn inbound(&self) -> futures::channel::mpsc::UnboundedReceiver<
        tokio_tungstenite::tungstenite::Message,
    > {
        self.rx
    }

    /// The queue that outbound frames are put on.
    pub closed spec fn outbound(&self) -> futures::channel::mpsc::UnboundedSender<
        tokio_tungstenite::tungstenite::Message,
    > {
        self.tx
    }
}

/// What the reading half of the network task does with what it read.
#[derive(Debug, PartialEq, Eq)]
pub enum ReaderStep<T, E> {
    /// Put the message on the inbound queue.
    Forward(T),
    /// The read failed, with this error: pass it over and go on reading.
    Skip(E),
    /// The stream ended: stop.
    Stop,
}

/// The decision of the reading half: a message goes on, a failed read is
/// passed over, the end of the stream ends the half.
pub fn reader_step<T, E>(read: Option<Result<T, E>>) -> (step: ReaderStep<T, E>)
    ensures
        step == (match read {
            Some(Ok(message)) => ReaderStep::Forward(message),
            Some(Err(error)) => ReaderStep::Skip(error),
            None => ReaderStep::Stop,
        }),
{
    match read {
        Some(Ok(message)) => ReaderStep::Forward(message),
        Some(Err(error)) => ReaderStep::Skip(error),
        None => ReaderStep::Stop,
    }
}

/// What the writing half of the network task does with what it took off the
/// outbound queue.
#[derive(Debug, PartialEq, Eq)]
pub enum WriterStep<T> {
    /// Write the message to the socket; go on whether or not that works.
    Write(T),
    /// The queue is closed: stop.
    Stop,
}

/// The decision of the writing half: a message is written, the closing of
/// the queue ends the half.
pub fn writer_step<T>(next: Option<T>) -> (step: WriterStep<T>)
    ensures
        step == (match next {
            Some(message) => WriterStep::Write(message),
            None => WriterStep::Stop,
        }),
{
    match next {
        Some(message) => WriterStep::Write(message),
        None => WriterStep::Stop,
    }
}

} // verus!

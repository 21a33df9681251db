//! What holds of a session with a worker as a whole.
use vstd::prelude::*;
use crate::error::{Error, ErrorView};
use crate::protocol::{
    answers, law_message_read_back, law_reply_within_its_end, meaning, message_bytes,
    parse_reply, request_bytes, Awaiting, Message, Outcome, ReplyView, Request,
};
use crate::worker::{sent, Session};
use crate::worker_side::{law_request_heard, read_request};

verus! {

/// One request, one answer. Until all of the worker's message has arrived, in whatever pieces,
/// the session waits, and never for a byte that the worker does not send; when it has arrived
/// the request is over, with what the message means.
pub proof fn law_exchange(session: Session, awaiting: Awaiting, message: Message, arrived: int)
    requires
        session.idle(),
        answers(message, awaiting, session.channels),
        0 <= arrived <= message_bytes(message).len(),
    ensures
        ({
            let bytes = message_bytes(message);
            let asked = session.asked(awaiting);
            let now = asked.received_more(bytes.take(arrived));
            if arrived < bytes.len() {
                now.outcome() matches Outcome::More(n) && 1 <= n <= bytes.len() - arrived
            } else {
                now.outcome() == meaning(message)
            }
        }),
{
    let bytes = message_bytes(message);
    let asked = session.asked(awaiting);
    law_message_read_back(message, awaiting, session.channels);
    law_reply_within_its_end(awaiting, session.channels, bytes, arrived);
    assert(asked.received + bytes.take(arrived) =~= bytes.take(arrived));
    if arrived == bytes.len() {
        assert(bytes.take(arrived) =~= bytes);
    }
}

/// It does not matter in how many pieces an answer arrives.
pub proof fn law_pieces(session: Session, first: Seq<u8>, second: Seq<u8>)
    ensures
        session.received_more(first).received_more(second) == session.received_more(first + second),
{
    assert(session.received + first + second =~= session.received + (first + second));
}

/// Once the worker is gone, every request fails with `WorkerGone` and nothing changes.
pub proof fn law_gone_for_good(
    before: Session,
    after: Session,
    fits: bool,
    request: Request,
    awaiting: Awaiting,
    r: Result<Vec<u8>, Error>,
)
    requires
        sent(before, after, fits, request, awaiting, r),
        before.gone,
    ensures
        r is Err,
        r->Err_0@ == ErrorView::WorkerGone,
        after == before,
        after.gone,
{
}

/// The session survives the worker: whatever was awaited, it is left without a pending answer,
/// with its chain's channel count and its last block of audio as they were.
pub proof fn law_crash_is_contained(session: Session)
    requires
        session.well_formed(),
    ensures
        session.dead().well_formed(),
        session.dead().gone,
        session.dead().awaiting is None,
        session.dead().channels == session.channels,
        session.dead().output == session.output,
{
}

/// A request that the worker refuses leaves the session as it was before the request: alive,
/// ready for the next one, with the channel count of the chain that is still there.
pub proof fn law_refusal_is_recoverable(session: Session, awaiting: Awaiting, text: Seq<char>)
    requires
        session.idle(),
        !session.gone,
        answers(Message::Failed(text), awaiting, session.channels),
    ensures
        ({
            let bytes = message_bytes(Message::Failed(text));
            let now = session.asked(awaiting).received_more(bytes);
            &&& now.outcome() == (Outcome::Failed {
                error: ErrorView::Remote(text),
                end: bytes.len() as int,
            })
            &&& now.settled() == session
        }),
{
    let bytes = message_bytes(Message::Failed(text));
    law_message_read_back(Message::Failed(text), awaiting, session.channels);
    assert(session.asked(awaiting).received + bytes =~= bytes);
    assert(session.received =~= seq![]);
}

/// Loading a single component sets up the session as a chain of that one stage does.
pub proof fn law_load_is_chain_of_one(session: Session, channels: u32, name: Seq<char>)
    ensures
        session.asked(Awaiting::Load { channels }).answered(ReplyView::Loaded(name))
            == session.asked(Awaiting::Chain { channels }).answered(
            ReplyView::Chain(seq![name]),
        ),
{
}

/// A preset goes round: the blob that a stage's preset is read as is, byte for byte, the blob
/// that the worker hears when it is set again.
pub proof fn law_preset_round_trip(blob: Seq<u8>, stage: u32, channels: u32)
    requires
        blob.len() <= u32::MAX,
    ensures
        parse_reply(Awaiting::Preset, channels, message_bytes(Message::Preset(blob))) == (
        Outcome::Done {
            reply: ReplyView::Preset(blob),
            end: message_bytes(Message::Preset(blob)).len() as int,
        }),
        read_request(request_bytes(Request::SetPreset { stage, blob }), channels) == Some(
            Request::SetPreset { stage, blob },
        ),
{
    law_message_read_back(Message::Preset(blob), Awaiting::Preset, channels);
    law_request_heard(Request::SetPreset { stage, blob }, channels);
}

/// The channel count is at least one in every state that a session goes through.
pub proof fn law_channels_never_zero(session: Session, awaiting: Awaiting, reply: ReplyView)
    requires
        session.well_formed(),
    ensures
        session.asked(awaiting).channels >= 1,
        session.asked(awaiting).answered(reply).channels >= 1,
        session.settled().channels >= 1,
        session.dead().channels >= 1,
{
}

} // verus!

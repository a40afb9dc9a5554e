//! Relaying what the mod host sends to the launcher.

use vstd::prelude::*;

verus! {

/// A message from the mod host. A response is handed on unread.
pub enum MsgToParent<R> {
    Response(R),
    ConsoleLog(String),
    FileLog(String),
}

/// Where log text goes.
#[derive(Clone, Copy, Debug, PartialEq, Eq, Structural)]
pub enum Sink {
    Console,
    File,
}

/// What is done with something that was received. Whatever comes of it, the relay goes on.
pub enum RelayAction<R, E> {
    /// Hand the response to whoever waits for it.
    Forward(R),
    /// Write all of the bytes. Nothing is done about a failed write.
    Write { sink: Sink, bytes: Vec<u8> },
    /// Log that nothing could be received.
    ReportFailure(E),
}

/// Where a message's text goes, and the text.
pub open spec fn addressed<R, E>(received: Result<MsgToParent<R>, E>) -> Option<
    (Sink, Seq<char>),
> {
    match received {
        Ok(MsgToParent::ConsoleLog(text)) => Some((Sink::Console, text@)),
        Ok(MsgToParent::FileLog(text)) => Some((Sink::File, text@)),
        _ => None,
    }
}

/// Whether `action` is what is done with `received`.
pub open spec fn relays<R, E>(
    received: Result<MsgToParent<R>, E>,
    action: RelayAction<R, E>,
) -> bool {
    match received {
        Ok(MsgToParent::Response(response)) => action == RelayAction::<R, E>::Forward(response),
        Err(error) => action == RelayAction::<R, E>::ReportFailure(error),
        _ => match (addressed(received), action) {
            (Some((to, text)), RelayAction::Write { sink, bytes }) => {
                &&& sink == to
                &&& bytes@ == vstd::utf8::encode_utf8(text)
            },
            _ => false,
        },
    }
}

/// Decides what is done with something that was received.
pub fn relay<R, E>(received: Result<MsgToParent<R>, E>) -> (action: RelayAction<R, E>)
    ensures
        relays(received, action),
        match received {
            Ok(MsgToParent::Response(response)) => action == RelayAction::<R, E>::Forward(response),
            Ok(MsgToParent::ConsoleLog(text)) => action matches RelayAction::Write { sink, bytes }
                && sink == Sink::Console && bytes@ == vstd::utf8::encode_utf8(text@),
            Ok(MsgToParent::FileLog(text)) => action matches RelayAction::Write { sink, bytes }
                && sink == Sink::File && bytes@ == vstd::utf8::encode_utf8(text@),
            Err(error) => action == RelayAction::<R, E>::ReportFailure(error),
        },
{
    match received {
        Ok(MsgToParent::Response(response)) => RelayAction::Forward(response),
        Ok(MsgToParent::ConsoleLog(text)) => RelayAction::Write {
            sink: Sink::Console,
            bytes: text.as_str().as_bytes_vec(),
        },
        Ok(MsgToParent::FileLog(text)) => RelayAction::Write {
            sink: Sink::File,
            bytes: text.as_str().as_bytes_vec(),
        },
        Err(error) => RelayAction::ReportFailure(error),
    }
}

/// The bytes that a row of actions writes to a sink.
pub open spec fn written<R, E>(actions: Seq<RelayAction<R, E>>, sink: Sink) -> Seq<u8>
    decreases actions.len(),
{
    if actions.len() == 0 {
        Seq::empty()
    } else {
        let before = written(actions.drop_last(), sink);
        match actions.last() {
            RelayAction::Write { sink: s, bytes } => if s == sink {
                before + bytes@
            } else {
                before
            },
            _ => before,
        }
    }
}

/// The text of the messages for a sink: those for the console, or those for the file.
pub open spec fn logged<R, E>(received: Seq<Result<MsgToParent<R>, E>>, sink: Sink) -> Seq<char>
    decreases received.len(),
{
    if received.len() == 0 {
        Seq::empty()
    } else {
        let before = logged(received.drop_last(), sink);
        match (sink, received.last()) {
            (Sink::Console, Ok(MsgToParent::ConsoleLog(text))) => before + text@,
            (Sink::File, Ok(MsgToParent::FileLog(text))) => before + text@,
            _ => before,
        }
    }
}

/// The encoding of two texts one after the other.
proof fn lemma_encode_concat(first: Seq<char>, second: Seq<char>)
    ensures
        vstd::utf8::encode_utf8(first + second) == vstd::utf8::encode_utf8(first)
            + vstd::utf8::encode_utf8(second),
    decreases first.len(),
{
    if first.len() == 0 {
        assert(first + second =~= second);
        assert(vstd::utf8::encode_utf8(first) =~= Seq::empty());
        assert(vstd::utf8::encode_utf8(first) + vstd::utf8::encode_utf8(second)
            =~= vstd::utf8::encode_utf8(second));
    } else {
        let rest = first.drop_first();
        assert((first + second).drop_first() =~= rest + second);
        lemma_encode_concat(rest, second);
        assert(vstd::utf8::encode_utf8(first + second) =~= vstd::utf8::encode_utf8(first)
            + vstd::utf8::encode_utf8(second));
    }
}

/// Each sink receives the text of its own messages, all of it and in order, and nothing else: the
/// console that of the console log, the file that of the file log. Failures to receive lose
/// nothing.
pub proof fn sinks_receive_their_text<R, E>(
    received: Seq<Result<MsgToParent<R>, E>>,
    actions: Seq<RelayAction<R, E>>,
    sink: Sink,
)
    requires
        received.len() == actions.len(),
        forall|i: int| 0 <= i < received.len() ==> relays(#[trigger] received[i], actions[i]),
    ensures
        written(actions, sink) == vstd::utf8::encode_utf8(logged(received, sink)),
    decreases received.len(),
{
    if received.len() > 0 {
        let last: int = received.len() - 1;
        assert(relays(received[last], actions[last]));
        let earlier = received.drop_last();
        assert forall|i: int| 0 <= i < earlier.len() implies relays(
            #[trigger] earlier[i],
            actions.drop_last()[i],
        ) by {
            assert(relays(received[i], actions[i]));
        }
        sinks_receive_their_text(earlier, actions.drop_last(), sink);
        match received.last() {
            Ok(MsgToParent::ConsoleLog(text)) => {
                lemma_encode_concat(logged(earlier, sink), text@);
            },
            Ok(MsgToParent::FileLog(text)) => {
                lemma_encode_concat(logged(earlier, sink), text@);
            },
            _ => {},
        }
    } else {
        assert(written(actions, sink) =~= vstd::utf8::encode_utf8(logged(received, sink)));
    }
}

/// The responses that a row of actions hands on.
pub open spec fn forwarded<R, E>(actions: Seq<RelayAction<R, E>>) -> Seq<R>
    decreases actions.len(),
{
    if actions.len() == 0 {
        Seq::empty()
    } else {
        let before = forwarded(actions.drop_last());
        match actions.last() {
            RelayAction::Forward(response) => before.push(response),
            _ => before,
        }
    }
}

/// The responses among a row of messages.
pub open spec fn responses<R, E>(received: Seq<Result<MsgToParent<R>, E>>) -> Seq<R>
    decreases received.len(),
{
    if received.len() == 0 {
        Seq::empty()
    } else {
        let before = responses(received.drop_last());
        match received.last() {
            Ok(MsgToParent::Response(response)) => before.push(response),
            _ => before,
        }
    }
}

/// Every response that is received is handed on once, in order, and nothing else is.
pub proof fn responses_are_forwarded<R, E>(
    received: Seq<Result<MsgToParent<R>, E>>,
    actions: Seq<RelayAction<R, E>>,
)
    requires
        received.len() == actions.len(),
        forall|i: int| 0 <= i < received.len() ==> relays(#[trigger] received[i], actions[i]),
    ensures
        forwarded(actions) == responses(received),
    decreases received.len(),
{
    if received.len() > 0 {
        let last: int = received.len() - 1;
        assert(relays(received[last], actions[last]));
        let earlier = received.drop_last();
        assert forall|i: int| 0 <= i < earlier.len() implies relays(
            #[trigger] earlier[i],
            actions.drop_last()[i],
        ) by {
            assert(relays(received[i], actions[i]));
        }
        responses_are_forwarded(earlier, actions.drop_last());
    }
}

/// What is done with a message depends on nothing but what kind it is: a console log is written to
/// the console and a file log to the file, whatever its text, and all of the text is.
pub proof fn every_message_goes_its_way<R, E>(
    received: Result<MsgToParent<R>, E>,
    action: RelayAction<R, E>,
)
    requires
        relays(received, action),
    ensures
        received matches Ok(MsgToParent::Response(response)) ==> action == RelayAction::<
            R,
            E,
        >::Forward(response),
        received matches Ok(MsgToParent::ConsoleLog(text)) ==> (action matches RelayAction::Write {
            sink,
            bytes,
        } && sink == Sink::Console && bytes@ == vstd::utf8::encode_utf8(text@)),
        received matches Ok(MsgToParent::FileLog(text)) ==> (action matches RelayAction::Write {
            sink,
            bytes,
        } && sink == Sink::File && bytes@ == vstd::utf8::encode_utf8(text@)),
        received matches Err(error) ==> action == RelayAction::<R, E>::ReportFailure(error),
{
}

/// The failures that a row of actions reports.
pub open spec fn reported<R, E>(actions: Seq<RelayAction<R, E>>) -> Seq<E>
    decreases actions.len(),
{
    if actions.len() == 0 {
        Seq::empty()
    } else {
        let before = reported(actions.drop_last());
        match actions.last() {
            RelayAction::ReportFailure(error) => before.push(error),
            _ => before,
        }
    }
}

/// The failures to receive among a row of messages.
pub open spec fn failures<R, E>(received: Seq<Result<MsgToParent<R>, E>>) -> Seq<E>
    decreases received.len(),
{
    if received.len() == 0 {
        Seq::empty()
    } else {
        let before = failures(received.drop_last());
        match received.last() {
            Err(error) => before.push(error),
            _ => before,
        }
    }
}

/// Every failure to receive is reported once, in order, and nothing else is.
pub proof fn failures_are_reported<R, E>(
    received: Seq<Result<MsgToParent<R>, E>>,
    actions: Seq<RelayAction<R, E>>,
)
    requires
        received.len() == actions.len(),
        forall|i: int| 0 <= i < received.len() ==> relays(#[trigger] received[i], actions[i]),
    ensures
        reported(actions) == failures(received),
    decreases received.len(),
{
    if received.len() > 0 {
        let last: int = received.len() - 1;
        assert(relays(received[last], actions[last]));
        let earlier = received.drop_last();
        assert forall|i: int| 0 <= i < earlier.len() implies relays(
            #[trigger] earlier[i],
            actions.drop_last()[i],
        ) by {
            assert(relays(received[i], actions[i]));
        }
        failures_are_reported(earlier, actions.drop_last());
    }
}

} // verus!

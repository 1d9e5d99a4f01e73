//! The building of client invocations: their arguments, their upload
//! streams and the message that carries them.

use vstd::prelude::*;
use crate::client::ClientError;
use crate::framing::spec_frame;
use crate::messages::{ClientMessage, MessageEncoding, MessageView};
use crate::protocol::{
    invocation_json, spec_invocation_json, spec_stream_invocation_json, stream_invocation_json,
    strings_view, SerializationError,
};

verus! {

/// An upload stream of an invocation, with its id.
pub struct ClientStream<S> {
    stream_id: String,
    items: S,
}

impl<S> ClientStream<S> {
    /// The id of the stream.
    pub closed spec fn id(&self) -> Seq<char> {
        self.stream_id@
    }

    /// The items of the stream.
    pub closed spec fn source(&self) -> S {
        self.items
    }

    /// The stream `items` under the id `stream_id`.
    pub fn new(stream_id: String, items: S) -> (r: Self)
        ensures
            r.id() == stream_id@,
            r.source() == items,
    {
        ClientStream { stream_id, items }
    }

    /// The id of the stream.
    pub fn get_stream_id(&self) -> (r: String)
        ensures
            r@ == self.id(),
    {
        self.stream_id.clone()
    }

    /// The id and the items of the stream.
    pub fn into_parts(self) -> (r: (String, S))
        ensures
            r.0@ == self.id(),
            r.1 == self.source(),
    {
        (self.stream_id, self.items)
    }
}

/// An argument of an invocation: a serialized value, or a stream whose
/// items are sent as they come, with the id it is uploaded under.
pub enum InvocationArgs<T, S> {
    /// A value, already serialized (or the error of its serialization).
    Argument(T),
    /// A stream and its id.
    Stream(String, S),
}

/// The ids of the upload streams.
pub open spec fn spec_stream_ids<S>(streams: Seq<ClientStream<S>>) -> Seq<Seq<char>> {
    Seq::new(streams.len(), |i: int| streams[i].id())
}

/// The argument list of an invocation: none when there is no argument.
pub open spec fn spec_args_as_option(arguments: Seq<Seq<char>>) -> Option<Seq<Seq<char>>> {
    if arguments.len() == 0 {
        None
    } else {
        Some(arguments)
    }
}

/// The argument list of an invocation: none when there is no argument.
pub fn args_as_option(arguments: Vec<String>) -> (r: Option<Vec<String>>)
    ensures
        match r {
            Some(a) => arguments@.len() > 0 && a@ == arguments@,
            None => arguments@.len() == 0,
        },
{
    if arguments.len() == 0 {
        None
    } else {
        Some(arguments)
    }
}

/// The ids of the upload streams, in order.
pub fn get_stream_ids<S>(streams: &Vec<ClientStream<S>>) -> (r: Vec<String>)
    ensures
        strings_view(r@) == spec_stream_ids(streams@),
{
    let mut ids: Vec<String> = Vec::new();
    let mut i: usize = 0;
    while i < streams.len()
        invariant
            i <= streams@.len(),
            ids@.len() == i,
            forall|k: int| 0 <= k < i ==> #[trigger] ids@[k]@ == streams@[k].id(),
        decreases streams@.len() - i,
    {
        ids.push(streams[i].get_stream_id());
        i = i + 1;
    }
    assert(strings_view(ids@) =~= spec_stream_ids(streams@));
    ids
}

/// The upload streams, with their ids, in order.
pub fn into_actual_streams<S>(streams: Vec<ClientStream<S>>) -> (r: Vec<(String, S)>)
    ensures
        r@.len() == streams@.len(),
        forall|k: int|
            0 <= k < r@.len() ==> (#[trigger] r@[k]).0@ == streams@[k].id() && r@[k].1
                == streams@[k].source(),
{
    let ghost initial = streams@;
    let mut streams = streams;
    let mut reversed: Vec<(String, S)> = Vec::new();
    while streams.len() > 0
        invariant
            streams@.len() + reversed@.len() == initial.len(),
            forall|k: int| 0 <= k < streams@.len() ==> #[trigger] streams@[k] == initial[k],
            forall|k: int|
                0 <= k < reversed@.len() ==> (#[trigger] reversed@[k]).0@ == initial[initial.len()
                    - 1 - k].id() && reversed@[k].1 == initial[initial.len() - 1 - k].source(),
        decreases streams.len(),
    {
        let s = streams.pop().unwrap();
        reversed.push(s.into_parts());
    }
    let mut out: Vec<(String, S)> = Vec::new();
    while reversed.len() > 0
        invariant
            reversed@.len() + out@.len() == initial.len(),
            forall|k: int|
                0 <= k < reversed@.len() ==> (#[trigger] reversed@[k]).0@ == initial[initial.len()
                    - 1 - k].id() && reversed@[k].1 == initial[initial.len() - 1 - k].source(),
            forall|k: int|
                0 <= k < out@.len() ==> (#[trigger] out@[k]).0@ == initial[k].id() && out@[k].1
                    == initial[k].source(),
        decreases reversed.len(),
    {
        let p = reversed.pop().unwrap();
        out.push(p);
    }
    out
}

/// An invocation under construction: the method, its serialized arguments
/// and its upload streams.
pub struct InvocationBuilder<S> {
    method: String,
    encoding: MessageEncoding,
    arguments: Vec<String>,
    streams: Vec<ClientStream<S>>,
}

impl<S> InvocationBuilder<S> {
    /// The method called.
    pub closed spec fn target(&self) -> Seq<char> {
        self.method@
    }

    /// The serialized arguments, in order.
    pub closed spec fn args(&self) -> Seq<Seq<char>> {
        strings_view(self.arguments@)
    }

    /// The upload streams, in order.
    pub closed spec fn uploads(&self) -> Seq<ClientStream<S>> {
        self.streams@
    }

    /// An invocation of `method` without arguments.
    pub fn new(method: String) -> (r: Self)
        ensures
            r.target() == method@,
            r.args().len() == 0,
            r.uploads().len() == 0,
    {
        let r = InvocationBuilder {
            method,
            encoding: MessageEncoding::Json,
            arguments: Vec::new(),
            streams: Vec::new(),
        };
        assert(r.args() =~= Seq::<Seq<char>>::empty());
        r
    }

    /// Adds the next argument: a serialized value is appended to the
    /// arguments, a stream to the upload streams under its id; a value that
    /// could not be serialized makes the request malformed.
    pub fn arg(self, arg: InvocationArgs<Result<String, SerializationError>, S>) -> (r: Result<
        Self,
        ClientError,
    >)
        ensures
            match arg {
                InvocationArgs::Argument(Ok(json)) => r matches Ok(b) && b.target() == self.target()
                    && b.args() == self.args().push(json@) && b.uploads() == self.uploads(),
                InvocationArgs::Argument(Err(e)) => r matches Err(
                    ClientError::Malformed { direction, source: s },
                ) && direction@ == "request"@ && s == e,
                InvocationArgs::Stream(id, items) => r matches Ok(b) && b.target() == self.target()
                    && b.args() == self.args() && b.uploads().len() == self.uploads().len() + 1
                    && b.uploads().drop_last() == self.uploads() && b.uploads().last().source()
                    == items && b.uploads().last().id() == id@,
            },
    {
        let mut builder = self;
        match arg {
            InvocationArgs::Argument(Ok(json)) => {
                builder.arguments.push(json);
                assert(builder.args() =~= self.args().push(json@));
                Ok(builder)
            },
            InvocationArgs::Argument(Err(error)) => Err(ClientError::malformed_request(error)),
            InvocationArgs::Stream(stream_id, items) => {
                builder.streams.push(ClientStream::new(stream_id, items));
                assert(builder.uploads().drop_last() =~= self.uploads());
                Ok(builder)
            },
        }
    }

    /// The message of a call that expects no response: an invocation
    /// without id, with the arguments (none when there are none) and the
    /// ids of the upload streams.
    pub fn send_message(&self) -> (r: Result<ClientMessage, ClientError>)
        ensures
            r matches Ok(m) && m@ == MessageView::Text(
                spec_frame(
                    spec_invocation_json(
                        None,
                        self.target(),
                        spec_args_as_option(self.args()),
                        spec_stream_ids(self.uploads()),
                    ),
                ),
            ),
    {
        self.invocation_message(None)
    }

    /// The message of a call that awaits the response `invocation_id`.
    pub fn invoke_message(&self, invocation_id: &str) -> (r: Result<ClientMessage, ClientError>)
        ensures
            r matches Ok(m) && m@ == MessageView::Text(
                spec_frame(
                    spec_invocation_json(
                        Some(invocation_id@),
                        self.target(),
                        spec_args_as_option(self.args()),
                        spec_stream_ids(self.uploads()),
                    ),
                ),
            ),
    {
        self.invocation_message(Some(invocation_id))
    }

    fn invocation_message(&self, invocation_id: Option<&str>) -> (r: Result<
        ClientMessage,
        ClientError,
    >)
        ensures
            r matches Ok(m) && m@ == MessageView::Text(
                spec_frame(
                    spec_invocation_json(
                        match invocation_id {
                            Some(i) => Some(i@),
                            None => None,
                        },
                        self.target(),
                        spec_args_as_option(self.args()),
                        spec_stream_ids(self.uploads()),
                    ),
                ),
            ),
    {
        let arguments = args_as_option(self.arguments.clone());
        let stream_ids = get_stream_ids(&self.streams);
        let json = match &arguments {
            Some(a) => {
                assert(strings_view(a@) =~= self.args());
                invocation_json(invocation_id, self.method.as_str(), Some(a), &stream_ids)
            },
            None => {
                assert(self.args().len() == 0);
                invocation_json(invocation_id, self.method.as_str(), None, &stream_ids)
            },
        };
        match json {
            Ok(t) => Ok(self.encoding.framed(t)),
            Err(e) => Err(ClientError::malformed_request(e)),
        }
    }

    /// The message of a streaming call `invocation_id`: a stream
    /// invocation, which always carries its argument list.
    pub fn stream_message(&self, invocation_id: &str) -> (r: Result<ClientMessage, ClientError>)
        ensures
            r matches Ok(m) && m@ == MessageView::Text(
                spec_frame(
                    spec_stream_invocation_json(
                        invocation_id@,
                        self.target(),
                        self.args(),
                        spec_stream_ids(self.uploads()),
                    ),
                ),
            ),
    {
        let stream_ids = get_stream_ids(&self.streams);
        match stream_invocation_json(invocation_id, self.method.as_str(), &self.arguments, &stream_ids) {
            Ok(t) => Ok(self.encoding.framed(t)),
            Err(e) => Err(ClientError::malformed_request(e)),
        }
    }

    /// The upload streams, with their ids, in order.
    pub fn into_streams(self) -> (r: Vec<(String, S)>)
        ensures
            r@.len() == self.uploads().len(),
            forall|k: int|
                0 <= k < r@.len() ==> (#[trigger] r@[k]).0@ == self.uploads()[k].id() && r@[k].1
                    == self.uploads()[k].source(),
    {
        into_actual_streams(self.streams)
    }
}

} // verus!

//! The client-side hub: the methods a server may call on a client, and the
//! arguments of such calls.

use vstd::prelude::*;
use vstd::string::*;
use crate::protocol::{MessageType, SerializationError};
use crate::registry::Registry;

verus! {

/// Errors while extracting the arguments of an invocation.
#[derive(Debug)]
pub enum ExtractionError {
    /// There are fewer arguments than requested.
    MissingArgs,
    /// The invocation carries no stream ids.
    MissingStreamIds,
    /// There are fewer streams than requested.
    NotEnoughStreamIds,
    /// An argument could not be deserialized.
    JsonError { source: serde_json::Error },
    /// The arguments were not a JSON array.
    NotAnArray,
    /// An error of the user's own extraction.
    UserDefined(String),
}

/// The request to the hub could not be understood.
#[derive(Debug)]
pub enum MalformedRequest {
    /// It could not be deserialized.
    Serialization { source: SerializationError },
}

/// Errors of client-side hub invocations.
#[derive(Debug)]
pub enum HubError {
    /// An error of a user-defined method.
    Generic { message: String },
    /// The arguments could not be extracted.
    Extraction { source: ExtractionError },
    /// The request asks for something the hub does not support.
    Unsupported { message: String },
    /// The request was understood but cannot be processed.
    Unprocessable { message: String },
    /// The request could not be understood.
    Incomprehensible { source: MalformedRequest },
}

/// Marks the types that a hub method may take as a value argument.
pub trait HubArgument {

}

impl HubArgument for usize {

}

impl HubArgument for isize {

}

impl HubArgument for i8 {

}

impl HubArgument for i16 {

}

impl HubArgument for i32 {

}

impl HubArgument for i64 {

}

impl HubArgument for i128 {

}

impl HubArgument for u8 {

}

impl HubArgument for u16 {

}

impl HubArgument for u32 {

}

impl HubArgument for u64 {

}

impl HubArgument for u128 {

}

impl HubArgument for String {

}

/// The `arguments` field of an invocation, as found in the message.
#[derive(Debug, Clone)]
pub enum ArgumentsField<V> {
    /// There is no such field.
    Missing,
    /// A JSON array of these values.
    Array(Vec<V>),
    /// Something else than an array.
    NotArray,
}

/// The arguments of an invocation that are still to be extracted, in the
/// order the method takes them.
pub struct ArgumentsLeft<V> {
    reversed: Vec<V>,
}

impl<V> View for ArgumentsLeft<V> {
    type V = Seq<V>;

    closed spec fn view(&self) -> Seq<V> {
        self.reversed@.reverse()
    }
}

impl<V> ArgumentsLeft<V> {
    /// All of `values`, in order.
    pub fn from_values(values: Vec<V>) -> (r: Self)
        ensures
            r@ == values@,
    {
        let ghost initial = values@;
        let mut values = values;
        let mut reversed: Vec<V> = Vec::new();
        while values.len() > 0
            invariant
                initial == values@ + reversed@.reverse(),
            decreases values.len(),
        {
            let ghost before = values@;
            let v = values.pop().unwrap();
            reversed.push(v);
            assert(reversed@.reverse() =~= seq![v] + old_rev(reversed@));
            assert(before =~= values@.push(v));
            assert(initial =~= values@ + reversed@.reverse());
        }
        assert(values@ + reversed@.reverse() =~= reversed@.reverse());
        ArgumentsLeft { reversed }
    }

    /// The next argument, if any is left.
    pub fn next(&mut self) -> (r: Option<V>)
        ensures
            old(self)@.len() == 0 ==> r is None && final(self)@ == old(self)@,
            old(self)@.len() > 0 ==> r == Some(old(self)@[0]) && final(self)@ == old(self)@.drop_first(),
    {
        let ghost before = self.reversed@;
        let r = self.reversed.pop();
        proof {
            if before.len() > 0 {
                assert(before.reverse()[0] == before.last());
                assert(self.reversed@.reverse() =~= before.reverse().drop_first());
            }
        }
        r
    }

    /// The next argument of a method that takes one more: an error when
    /// none is left.
    pub fn take(&mut self) -> (r: Result<V, ExtractionError>)
        ensures
            old(self)@.len() == 0 ==> (r matches Err(ExtractionError::MissingArgs) && final(self)@
                == old(self)@),
            old(self)@.len() > 0 ==> r == Ok::<V, ExtractionError>(old(self)@[0]) && final(self)@
                == old(self)@.drop_first(),
    {
        match self.next() {
            Some(v) => Ok(v),
            None => Err(ExtractionError::MissingArgs),
        }
    }
}

/// `s` without its last element, reversed: the reversal before the last
/// push.
spec fn old_rev<V>(s: Seq<V>) -> Seq<V> {
    s.drop_last().reverse()
}

/// The arguments of a call of a client-side hub method: a JSON array is
/// required, and a missing field counts as `null`, which is not one.
pub fn get_arguments<V>(field: ArgumentsField<V>) -> (r: Result<ArgumentsLeft<V>, ExtractionError>)
    ensures
        match field {
            ArgumentsField::Array(values) => r matches Ok(a) && a@ == values@,
            _ => r matches Err(ExtractionError::NotAnArray),
        },
{
    match field {
        ArgumentsField::Array(values) => Ok(ArgumentsLeft::from_values(values)),
        _ => Err(ExtractionError::NotAnArray),
    }
}

/// The arguments left after `n` extractions.
pub open spec fn spec_after_takes<V>(args: Seq<V>, n: nat) -> Seq<V>
    decreases n,
{
    if n == 0 || args.len() == 0 {
        args
    } else {
        spec_after_takes(args.drop_first(), (n - 1) as nat)
    }
}

/// Arguments are extracted in the order of the call: the `k`-th extraction
/// yields the `k`-th argument, and once all are taken the next extraction
/// fails.
pub proof fn law_arguments_in_order<V>(args: Seq<V>, k: nat)
    ensures
        k < args.len() ==> spec_after_takes(args, k).len() > 0 && spec_after_takes(args, k)[0]
            == args[k as int],
        k >= args.len() ==> spec_after_takes(args, k).len() == 0,
    decreases k,
{
    if k > 0 && args.len() > 0 {
        law_arguments_in_order(args.drop_first(), (k - 1) as nat);
    }
}

/// The methods of a client-side hub, by name.
pub struct Hub<M> {
    methods: Registry<M>,
}

impl<M> View for Hub<M> {
    type V = Map<Seq<char>, M>;

    closed spec fn view(&self) -> Map<Seq<char>, M> {
        self.methods@
    }
}

impl<M> Hub<M> {
    /// A hub without methods.
    pub fn new() -> (r: Self)
        ensures
            r@ == Map::<Seq<char>, M>::empty(),
    {
        Hub { methods: Registry::new() }
    }

    /// Whether a method is registered under `name`.
    pub fn has_method(&self, name: &str) -> (r: bool)
        ensures
            r == self@.contains_key(name@),
    {
        self.methods.contains_key(name)
    }

    /// Registers `method` under `name`, in place of any method registered
    /// under it before.
    pub fn method(self, name: String, method: M) -> (r: Self)
        ensures
            r@ == self@.insert(name@, method),
    {
        let mut hub = self;
        let _ = hub.methods.insert(name, method);
        hub
    }

    /// The method that an incoming message of type `message_type` and
    /// target `target` calls: only invocations are supported, they must
    /// name a target, and the target must be registered.
    pub fn find(&self, message_type: MessageType, target: Option<String>) -> (r: Result<&M, HubError>)
        ensures
            message_type != MessageType::Invocation ==> (r matches Err(
                HubError::Unsupported { message },
            ) && message@ == message_type.spec_name() + " not supported by client-side hub"@),
            message_type == MessageType::Invocation && target is None ==> (r matches Err(
                HubError::Unprocessable { message },
            ) && message@ == "Target of invocation missing in request"@),
            message_type == MessageType::Invocation && target is Some ==> match r {
                Ok(m) => self@.contains_key(target->0@) && *m == self@[target->0@],
                Err(HubError::Unprocessable { message }) => !self@.contains_key(target->0@)
                    && message@ == "target "@ + target->0@ + " not found"@,
                Err(_) => false,
            },
    {
        if message_type != MessageType::Invocation {
            let message = String::from_str(message_type.name()).concat(
                " not supported by client-side hub",
            );
            return Err(HubError::Unsupported { message });
        }
        match target {
            None => Err(
                HubError::Unprocessable {
                    message: String::from_str("Target of invocation missing in request"),
                },
            ),
            Some(t) => match self.methods.get(t.as_str()) {
                Some(m) => Ok(m),
                None => {
                    let message = String::from_str("target ").concat(t.as_str()).concat(
                        " not found",
                    );
                    Err(HubError::Unprocessable { message })
                },
            },
        }
    }
}

} // verus!

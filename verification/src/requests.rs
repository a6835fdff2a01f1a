//! The table of the requests that are worked on.

use vstd::prelude::*;

use crate::object_id::{hex_text, hyphenated};
use crate::response::{ResponseModel, SymbolicationError, SymbolicationResponse};
use crate::string_map::StringMap;
use crate::types::RequestId;

verus! {

/// After how many seconds to ask again for a response that is not ready.
pub const RETRY_AFTER: usize = 30;

/// Status poll request.
#[derive(Clone, Debug)]
pub struct GetSymbolicationStatus {
    /// The identifier of the symbolication task.
    pub request_id: RequestId,
    /// An optional timeout, after which the request will yield a result.
    ///
    /// If this timeout is not set, symbolication will continue until a result is ready (which is
    /// either an error or success). If this timeout is set and no result is ready, a `pending`
    /// status is returned.
    pub timeout: Option<u64>,
}

/// What came of waiting for a response.
#[derive(Clone, Debug)]
pub enum ChannelEvent {
    /// The response came.
    Finished(SymbolicationResponse),
    /// No response will come.
    Canceled,
    /// The time to wait was over before the response came.
    TimedOut,
}

/// The model of a [`ChannelEvent`].
pub enum EventModel {
    Finished(ResponseModel),
    Canceled,
    TimedOut,
}

impl DeepView for ChannelEvent {
    type V = EventModel;

    open spec fn deep_view(&self) -> EventModel {
        match self {
            ChannelEvent::Finished(response) => EventModel::Finished(response.deep_view()),
            ChannelEvent::Canceled => EventModel::Canceled,
            ChannelEvent::TimedOut => EventModel::TimedOut,
        }
    }
}

/// The requests that are worked on, each with the channel that its response comes through.
#[derive(Debug)]
pub struct Requests<C> {
    channels: StringMap<C>,
}

impl<C> View for Requests<C> {
    type V = Map<Seq<char>, C>;

    closed spec fn view(&self) -> Map<Seq<char>, C> {
        self.channels@
    }
}

/// The requests once a poll for one of them was answered. It is done with where its response came.
/// Where the poll had no timeout it is done with in any case.
pub open spec fn requests_after<C>(
    requests: Map<Seq<char>, C>,
    request_id: Seq<char>,
    timeout: Option<u64>,
    event: EventModel,
) -> Map<Seq<char>, C> {
    if event is Finished || timeout is None {
        requests.remove(request_id)
    } else {
        requests
    }
}

/// The answer to a poll. None where no response will come.
pub open spec fn poll_answer(request_id: Seq<char>, event: EventModel) -> Option<ResponseModel> {
    match event {
        EventModel::Finished(response) => Some(response),
        EventModel::Canceled => None,
        EventModel::TimedOut => Some(
            ResponseModel::Pending { request_id, retry_after: RETRY_AFTER },
        ),
    }
}

/// Whether a text is that of a random UUID: five groups of hexadecimal digits in lower case, with
/// the version and the variant of such a UUID.
pub open spec fn is_random_uuid(text: Seq<char>) -> bool {
    exists|bytes: Seq<u8>|
        #![trigger hex_text(bytes)]
        bytes.len() == 16 && bytes[6] / 16 == 4 && bytes[8] / 64 == 2 && text == hyphenated(
            hex_text(bytes),
        )
}

/// Calls `uuid::Uuid::new_v4` and prints the UUID. Claims that the text is that of a random UUID.
/// Which one it is rests on chance. The call stops the program where the system has no random bytes
/// to give.
#[verifier::external_body]
fn random_uuid() -> (r: String)
    ensures
        is_random_uuid(r@),
{
    uuid::Uuid::new_v4().to_string()
}

impl<C> Requests<C> {
    /// No requests.
    pub fn new() -> (r: Self)
        ensures
            r@ == Map::<Seq<char>, C>::empty(),
    {
        Requests { channels: StringMap::new() }
    }

    /// The given identifier, where no request has it.
    pub fn accept_id(&self, candidate: RequestId) -> (r: Option<RequestId>)
        ensures
            r.deep_view() == (if self@.contains_key(candidate.deep_view()) {
                None
            } else {
                Some(candidate.deep_view())
            }),
    {
        if self.channels.contains_key(candidate.0.as_str()) {
            None
        } else {
            Some(candidate)
        }
    }

    /// A random identifier, unless a request has the one that was drawn. There is one in any case
    /// where no request has a random identifier.
    pub fn draw_id(&self) -> (r: Option<RequestId>)
        ensures
            match r {
                Some(id) => !self@.contains_key(id.deep_view()) && is_random_uuid(id.deep_view()),
                None => exists|taken: Seq<char>| #[trigger]
                    self@.contains_key(taken) && is_random_uuid(taken),
            },
    {
        self.accept_id(RequestId(random_uuid()))
    }

    /// Adds a request.
    pub fn insert(&mut self, request_id: RequestId, channel: C)
        ensures
            final(self)@ == old(self)@.insert(request_id.deep_view(), channel),
    {
        self.channels.insert(request_id.0, channel);
    }

    /// Adds a request under a random identifier, unless a request has the one that was drawn. The
    /// request is then found under it, and all others are still found under theirs.
    pub fn register(&mut self, channel: C) -> (r: Option<RequestId>)
        ensures
            match r {
                Some(id) => {
                    &&& is_random_uuid(id.deep_view())
                    &&& !old(self)@.contains_key(id.deep_view())
                    &&& final(self)@ == old(self)@.insert(id.deep_view(), channel)
                },
                None => {
                    &&& final(self)@ == old(self)@
                    &&& exists|taken: Seq<char>| #[trigger]
                        old(self)@.contains_key(taken) && is_random_uuid(taken)
                },
            },
    {
        match self.draw_id() {
            Some(request_id) => {
                self.insert(RequestId(request_id.0.clone()), channel);
                Some(request_id)
            },
            None => None,
        }
    }

    /// The channel that the response to a request comes through, where the request is known.
    pub fn get(&self, request_id: &RequestId) -> (r: Option<&C>)
        ensures
            r == (if self@.contains_key(request_id.deep_view()) {
                Some(&self@[request_id.deep_view()])
            } else {
                None
            }),
    {
        self.channels.get(request_id.0.as_str())
    }

    /// Answers a poll for a request, given what came of waiting for its response. Where no response
    /// will come the answer is an error.
    pub fn answer(&mut self, request: GetSymbolicationStatus, event: ChannelEvent) -> (r: Result<
        SymbolicationResponse,
        SymbolicationError,
    >)
        requires
            event is TimedOut ==> request.timeout is Some,
        ensures
            final(self)@ == requests_after(
                old(self)@,
                request.request_id.deep_view(),
                request.timeout,
                event.deep_view(),
            ),
            match r {
                Ok(response) => poll_answer(request.request_id.deep_view(), event.deep_view())
                    == Some(response.deep_view()),
                Err(err) => err == SymbolicationError::CanceledChannel && poll_answer(
                    request.request_id.deep_view(),
                    event.deep_view(),
                ) is None,
            },
    {
        match event {
            ChannelEvent::Finished(response) => {
                let _ = self.channels.remove(request.request_id.0.as_str());
                Ok(response)
            },
            ChannelEvent::Canceled => {
                if request.timeout.is_none() {
                    let _ = self.channels.remove(request.request_id.0.as_str());
                }
                Err(SymbolicationError::CanceledChannel)
            },
            ChannelEvent::TimedOut => Ok(
                SymbolicationResponse::Pending {
                    request_id: request.request_id,
                    retry_after: RETRY_AFTER,
                },
            ),
        }
    }
}

/// A poll whose time was over leaves all requests as they are: the request can be polled again.
pub proof fn law_pending_request_stays<C>(
    requests: Map<Seq<char>, C>,
    request_id: Seq<char>,
    timeout: u64,
)
    ensures
        requests_after(requests, request_id, Some(timeout), EventModel::TimedOut) == requests,
        poll_answer(request_id, EventModel::TimedOut) == Some(
            ResponseModel::Pending { request_id, retry_after: 30 },
        ),
{
}

/// A response is delivered once: the request is not known any more, and all others still are.
pub proof fn law_delivered_request_is_gone<C>(
    requests: Map<Seq<char>, C>,
    request_id: Seq<char>,
    timeout: Option<u64>,
    response: ResponseModel,
    other: Seq<char>,
)
    requires
        other != request_id,
    ensures
        poll_answer(request_id, EventModel::Finished(response)) == Some(response),
        ({
            let after = requests_after(
                requests,
                request_id,
                timeout,
                EventModel::Finished(response),
            );
            &&& !after.contains_key(request_id)
            &&& after.contains_key(other) == requests.contains_key(other)
            &&& requests.contains_key(other) ==> after[other] == requests[other]
        }),
{
}

/// A request under an identifier that no request has takes the place of none.
pub proof fn law_new_request_replaces_none<C>(
    requests: Map<Seq<char>, C>,
    request_id: Seq<char>,
    channel: C,
    other: Seq<char>,
)
    requires
        !requests.contains_key(request_id),
        requests.contains_key(other),
    ensures
        requests.insert(request_id, channel).contains_key(request_id),
        requests.insert(request_id, channel)[request_id] == channel,
        requests.insert(request_id, channel).contains_key(other),
        requests.insert(request_id, channel)[other] == requests[other],
{
}

/// Polling for a request never touches another one. The request is forgotten where its response came,
/// and also where the poll had no timeout.
pub proof fn law_poll_touches_one_request<C>(
    requests: Map<Seq<char>, C>,
    request_id: Seq<char>,
    timeout: Option<u64>,
    event: EventModel,
    other: Seq<char>,
)
    ensures
        ({
            let after = requests_after(requests, request_id, timeout, event);
            &&& other != request_id ==> after.contains_key(other) == requests.contains_key(other)
            &&& other != request_id && requests.contains_key(other) ==> after[other]
                == requests[other]
            &&& event is Finished || timeout is None ==> !after.contains_key(request_id)
            &&& !(event is Finished) && timeout is Some ==> after == requests
        }),
{
}

/// A poll is answered with the response itself where it came, with when to ask again where the time
/// was over, and with no response where none will come.
pub proof fn law_poll_answers(request_id: Seq<char>, response: ResponseModel)
    ensures
        poll_answer(request_id, EventModel::Finished(response)) == Some(response),
        poll_answer(request_id, EventModel::Canceled) is None,
        poll_answer(request_id, EventModel::TimedOut) matches Some(
            ResponseModel::Pending { request_id: answered, retry_after },
        ) && answered == request_id && retry_after == 30,
{
}

/// A random identifier has 36 characters, among them four hyphens. It names the version 4 and the
/// variant of random UUIDs.
pub proof fn law_random_uuid(text: Seq<char>)
    requires
        is_random_uuid(text),
    ensures
        text.len() == 36,
        text[8] == '-' && text[13] == '-' && text[18] == '-' && text[23] == '-',
        text[14] == '4',
        text[19] == '8' || text[19] == '9' || text[19] == 'a' || text[19] == 'b',
        forall|k: int|
            0 <= k < 36 && k != 8 && k != 13 && k != 18 && k != 23 ==> 48 <= (
            #[trigger] text[k]) as int <= 57 || 97 <= text[k] as int <= 102,
{
    let bytes = choose|bytes: Seq<u8>|
        #![trigger hex_text(bytes)]
        bytes.len() == 16 && bytes[6] / 16 == 4 && bytes[8] / 64 == 2 && text == hyphenated(
            hex_text(bytes),
        );
    let digits = hex_text(bytes);
    assert(digits.len() == 32);
    assert(digits[12] == '4');
    assert(bytes[8] / 16 == 8 || bytes[8] / 16 == 9 || bytes[8] / 16 == 10 || bytes[8] / 16 == 11);
    assert(text[14] == digits[12]);
    assert(text[19] == digits[16]);
    assert forall|k: int|
        0 <= k < 36 && k != 8 && k != 13 && k != 18 && k != 23 implies 48 <= (
    #[trigger] text[k]) as int <= 57 || 97 <= text[k] as int <= 102 by {
        let d = if k < 8 {
            k
        } else if k < 13 {
            k - 1
        } else if k < 18 {
            k - 2
        } else if k < 23 {
            k - 3
        } else {
            k - 4
        };
        assert(text[k] == digits[d]);
        assert(0 <= d < 32);
        assert(0 <= bytes[d / 2] as int / 16 < 16 && 0 <= bytes[d / 2] as int % 16 < 16);
    }
}

} // verus!

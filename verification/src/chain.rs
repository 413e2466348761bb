//! The chain driver: it calls the filter instances of one exchange in their
//! order for each phase, stops at the first that pauses, goes on past it
//! when the phase is resumed, and gives up normal processing for good once
//! a filter has sent a response of its own.

use vstd::prelude::*;
use crate::buffer::{appended, appended_all, lemma_appended_all};
use crate::filters::dispatch::{BodyOutcome, HttpFilter, HttpFilterInstance, InstanceView};
use crate::filters::validate_json::{RequestBodyStep, ValidateJsonFilterBody};
use crate::headers::HeaderMap;
use crate::host::{HostContext, HostHandle, HostView};
use crate::status::{Direction, RequestBodyStatus};

verus! {

/// What the driver tells the host after a call.
#[derive(Clone, Copy, Debug, PartialEq, Eq, Structural)]
pub enum HostSignal {
    /// Every instance continued: go on streaming.
    Continue,
    /// An instance paused: hold back until the direction is resumed.
    Pause,
    /// A filter sent a response of its own: deliver it and end the exchange.
    LocalResponse,
    /// An instance needs the accumulated request body decoded: decode it and
    /// report the outcome.
    Decode,
    /// The call came when there was nothing for it to do, and did nothing.
    Ignored,
}

/// How far one direction of the exchange has come.
#[derive(Clone, Copy, Debug, PartialEq, Eq, Structural)]
pub enum Stage {
    /// Nothing has arrived yet.
    Idle,
    /// The headers have arrived.
    Headers,
    /// A frame of the body has been handed to the instances.
    Body,
}

/// What the phase call in progress waits for.
#[derive(Clone, Copy, Debug, PartialEq, Eq, Structural)]
pub enum Waiting {
    /// Nothing: the call has gone through the chain or has ended.
    Nothing,
    /// A resume, after the last instance called paused.
    Resume,
    /// The outcome of decoding, which the next instance asked for.
    Decode,
}

/// The progress of one direction.
#[derive(Clone, Copy, Debug, PartialEq, Eq, Structural)]
pub struct Flow {
    /// How far the direction has come.
    pub stage: Stage,
    /// The instance that the phase call in progress calls next; the
    /// instances before it have had their call.
    pub next: usize,
    /// What the phase call in progress waits for.
    pub waiting: Waiting,
    /// Whether the end of the stream has arrived.
    pub ended: bool,
    /// Whether body frames arrived while the headers were paused, and still
    /// wait to be handed to the instances.
    pub backlog: bool,
}

impl Flow {
    /// A direction on which nothing has arrived.
    pub open spec fn idle() -> Flow {
        Flow { stage: Stage::Idle, next: 0, waiting: Waiting::Nothing, ended: false, backlog: false }
    }

    /// The headers have just arrived, with or without the end of the stream.
    pub open spec fn headers(end_of_stream: bool) -> Flow {
        Flow {
            stage: Stage::Headers,
            next: 0,
            waiting: Waiting::Nothing,
            ended: end_of_stream,
            backlog: false,
        }
    }

    /// A frame of the body is about to be handed to the instances.
    pub open spec fn body(end_of_stream: bool) -> Flow {
        Flow {
            stage: Stage::Body,
            next: 0,
            waiting: Waiting::Nothing,
            ended: end_of_stream,
            backlog: false,
        }
    }

    /// Whether the headers phase is paused.
    pub open spec fn headers_paused(self) -> bool {
        self.stage == Stage::Headers && self.waiting == Waiting::Resume
    }
}

/// What a `FilterChain` holds.
pub struct ChainView {
    /// The instances, in the order in which they are called.
    pub instances: Seq<InstanceView>,
    /// The host side of the exchange.
    pub host: HostView,
    /// The request headers.
    pub request_headers: Seq<(Seq<u8>, Seq<u8>)>,
    /// The response headers.
    pub response_headers: Seq<(Seq<u8>, Seq<u8>)>,
    /// The progress of the request.
    pub request: Flow,
    /// The progress of the response.
    pub response: Flow,
    /// Whether the exchange has been destroyed.
    pub destroyed: bool,
}

impl ChainView {
    /// Why an inbound call finds nothing to do, if it does: the exchange
    /// was destroyed, or a filter has sent a response of its own.
    pub open spec fn closed(self) -> Option<HostSignal> {
        if self.destroyed {
            Some(HostSignal::Ignored)
        } else if self.host.local_response.is_some() {
            Some(HostSignal::LocalResponse)
        } else {
            None
        }
    }

    /// The end-of-stream flag that the request headers phase is called
    /// with.
    pub open spec fn request_headers_end(self) -> bool {
        self.request.ended && !self.request.backlog
    }

    /// The end-of-stream flag that the response headers phase is called
    /// with.
    pub open spec fn response_headers_end(self) -> bool {
        self.response.ended && !self.response.backlog
    }

    /// The request headers phase from the next instance on: each instance
    /// is called in turn, until one sends a response of its own, or pauses,
    /// or the chain is through.
    pub open spec fn run_request_headers(self) -> (ChainView, HostSignal)
        decreases self.instances.len() - self.request.next,
        when self.instances.len() <= usize::MAX
    {
        if self.request.next >= self.instances.len() {
            (self, HostSignal::Continue)
        } else {
            let at: usize = self.request.next;
            let outcome = self.instances[at as int].request_headers(
                self.request_headers,
                HostView { caller: at, ..self.host },
            );
            let called = ChainView {
                instances: self.instances.update(at as int, outcome.instance),
                request_headers: outcome.headers,
                host: outcome.host,
                request: Flow { next: (at + 1) as usize, ..self.request },
                ..self
            };
            if outcome.host.local_response.is_some() {
                (called, HostSignal::LocalResponse)
            } else if outcome.status.pauses() {
                (
                    ChainView {
                        request: Flow { waiting: Waiting::Resume, ..called.request },
                        ..called
                    },
                    HostSignal::Pause,
                )
            } else {
                called.run_request_headers()
            }
        }
    }

    /// The request body phase for `frame` from the next instance on: each
    /// instance is called in turn, until one sends a response of its own,
    /// or asks for the body to be decoded, or pauses, or the chain is
    /// through.
    pub open spec fn run_request_body(self, frame: Seq<u8>) -> (ChainView, HostSignal)
        decreases self.instances.len() - self.request.next,
        when self.instances.len() <= usize::MAX
    {
        if self.request.next >= self.instances.len() {
            (self, HostSignal::Continue)
        } else {
            let at: usize = self.request.next;
            let outcome = self.instances[at as int].request_body(
                frame,
                self.request.ended,
                HostView { caller: at, ..self.host },
            );
            let called = ChainView {
                instances: self.instances.update(at as int, outcome.instance),
                host: outcome.host,
                ..self
            };
            let passed = ChainView {
                request: Flow { next: (at + 1) as usize, ..self.request },
                ..called
            };
            if outcome.host.local_response.is_some() {
                (passed, HostSignal::LocalResponse)
            } else {
                match outcome.status {
                    RequestBodyStep::Decode => (
                        ChainView {
                            request: Flow { waiting: Waiting::Decode, ..called.request },
                            ..called
                        },
                        HostSignal::Decode,
                    ),
                    RequestBodyStep::Done(status) => if status.pauses() {
                        (
                            ChainView {
                                request: Flow { waiting: Waiting::Resume, ..passed.request },
                                ..passed
                            },
                            HostSignal::Pause,
                        )
                    } else {
                        passed.run_request_body(frame)
                    },
                }
            }
        }
    }

    /// The response headers phase from the next instance on: each instance
    /// is called in turn, until one sends a response of its own, or pauses,
    /// or the chain is through.
    pub open spec fn run_response_headers(self) -> (ChainView, HostSignal)
        decreases self.instances.len() - self.response.next,
        when self.instances.len() <= usize::MAX
    {
        if self.response.next >= self.instances.len() {
            (self, HostSignal::Continue)
        } else {
            let at: usize = self.response.next;
            let outcome = self.instances[at as int].response_headers(
                self.response_headers,
                HostView { caller: at, ..self.host },
            );
            let called = ChainView {
                instances: self.instances.update(at as int, outcome.instance),
                response_headers: outcome.headers,
                host: outcome.host,
                response: Flow { next: (at + 1) as usize, ..self.response },
                ..self
            };
            if outcome.host.local_response.is_some() {
                (called, HostSignal::LocalResponse)
            } else if outcome.status.pauses() {
                (
                    ChainView {
                        response: Flow { waiting: Waiting::Resume, ..called.response },
                        ..called
                    },
                    HostSignal::Pause,
                )
            } else {
                called.run_response_headers()
            }
        }
    }

    /// The response body phase for `frame` from the next instance on: each
    /// instance is called in turn, until one sends a response of its own,
    /// or pauses, or the chain is through.
    pub open spec fn run_response_body(self, frame: Seq<u8>) -> (ChainView, HostSignal)
        decreases self.instances.len() - self.response.next,
        when self.instances.len() <= usize::MAX
    {
        if self.response.next >= self.instances.len() {
            (self, HostSignal::Continue)
        } else {
            let at: usize = self.response.next;
            let outcome = self.instances[at as int].response_body(
                frame,
                self.response.ended,
                HostView { caller: at, ..self.host },
            );
            let called = ChainView {
                instances: self.instances.update(at as int, outcome.instance),
                host: outcome.host,
                response: Flow { next: (at + 1) as usize, ..self.response },
                ..self
            };
            if outcome.host.local_response.is_some() {
                (called, HostSignal::LocalResponse)
            } else if outcome.status.pauses() {
                (
                    ChainView {
                        response: Flow { waiting: Waiting::Resume, ..called.response },
                        ..called
                    },
                    HostSignal::Pause,
                )
            } else {
                called.run_response_body(frame)
            }
        }
    }

    /// After the request headers phase ended with `signal`: if it went
    /// through the chain and body frames have been waiting, they are handed
    /// to the instances now, as one frame that is the whole accumulated
    /// body.
    pub open spec fn request_backlog(self, signal: HostSignal) -> (ChainView, HostSignal) {
        if signal == HostSignal::Continue && self.request.backlog {
            (ChainView { request: Flow::body(self.request.ended), ..self }).run_request_body(
                self.host.request_body.flatten(),
            )
        } else {
            (self, signal)
        }
    }

    /// After the response headers phase ended with `signal`: if it went
    /// through the chain and body frames have been waiting, they are handed
    /// to the instances now, as one frame that is the whole accumulated
    /// body.
    pub open spec fn response_backlog(self, signal: HostSignal) -> (ChainView, HostSignal) {
        if signal == HostSignal::Continue && self.response.backlog {
            (ChainView { response: Flow::body(self.response.ended), ..self }).run_response_body(
                self.host.response_body.flatten(),
            )
        } else {
            (self, signal)
        }
    }

    /// The arrival of the request headers.
    pub open spec fn on_request_headers(
        self,
        headers: Seq<(Seq<u8>, Seq<u8>)>,
        end_of_stream: bool,
    ) -> (ChainView, HostSignal) {
        if self.closed().is_some() {
            (self, self.closed().unwrap())
        } else if self.request.stage != Stage::Idle {
            (self, HostSignal::Ignored)
        } else {
            (ChainView {
                request_headers: headers,
                request: Flow::headers(end_of_stream),
                ..self
            }).run_request_headers()
        }
    }

    /// The arrival of the response headers.
    pub open spec fn on_response_headers(
        self,
        headers: Seq<(Seq<u8>, Seq<u8>)>,
        end_of_stream: bool,
    ) -> (ChainView, HostSignal) {
        if self.closed().is_some() {
            (self, self.closed().unwrap())
        } else if self.response.stage != Stage::Idle {
            (self, HostSignal::Ignored)
        } else {
            (ChainView {
                response_headers: headers,
                response: Flow::headers(end_of_stream),
                ..self
            }).run_response_headers()
        }
    }

    /// The arrival of a frame of the request body. The frame joins the
    /// accumulated body. While the headers are paused it waits there; else
    /// it is handed to the instances, from the first on.
    pub open spec fn on_request_body(self, frame: Seq<u8>, end_of_stream: bool) -> (
        ChainView,
        HostSignal,
    ) {
        if self.closed().is_some() {
            (self, self.closed().unwrap())
        } else if self.request.stage == Stage::Idle || self.request.ended {
            (self, HostSignal::Ignored)
        } else {
            let joined = ChainView {
                host: HostView {
                    request_body: appended(self.host.request_body, frame),
                    ..self.host
                },
                request: Flow { ended: end_of_stream, ..self.request },
                ..self
            };
            if self.request.headers_paused() {
                (
                    ChainView { request: Flow { backlog: true, ..joined.request }, ..joined },
                    HostSignal::Pause,
                )
            } else {
                (ChainView { request: Flow::body(end_of_stream), ..joined }).run_request_body(
                    frame,
                )
            }
        }
    }

    /// The arrival of a frame of the response body. The frame joins the
    /// accumulated body. While the headers are paused it waits there; else
    /// it is handed to the instances, from the first on.
    pub open spec fn on_response_body(self, frame: Seq<u8>, end_of_stream: bool) -> (
        ChainView,
        HostSignal,
    ) {
        if self.closed().is_some() {
            (self, self.closed().unwrap())
        } else if self.response.stage == Stage::Idle || self.response.ended {
            (self, HostSignal::Ignored)
        } else {
            let joined = ChainView {
                host: HostView {
                    response_body: appended(self.host.response_body, frame),
                    ..self.host
                },
                response: Flow { ended: end_of_stream, ..self.response },
                ..self
            };
            if self.response.headers_paused() {
                (
                    ChainView { response: Flow { backlog: true, ..joined.response }, ..joined },
                    HostSignal::Pause,
                )
            } else {
                (ChainView { response: Flow::body(end_of_stream), ..joined }).run_response_body(
                    frame,
                )
            }
        }
    }

    /// The outcome of decoding the accumulated request body, for the
    /// instance that asked: it decides, and the instances after it are
    /// called with the whole accumulated body as their frame.
    pub open spec fn request_body_decoded(self, decoded: bool) -> (ChainView, HostSignal) {
        if self.closed().is_some() || self.request.waiting != Waiting::Decode || self.request.next
            >= self.instances.len() {
            (self, HostSignal::Ignored)
        } else {
            let at: usize = self.request.next;
            let outcome = self.instances[at as int].request_body_decoded(
                decoded,
                HostView { caller: at, ..self.host },
            );
            let decided = ChainView {
                instances: self.instances.update(at as int, outcome.instance),
                host: outcome.host,
                request: Flow { next: (at + 1) as usize, waiting: Waiting::Nothing, ..self.request },
                ..self
            };
            if outcome.host.local_response.is_some() {
                (decided, HostSignal::LocalResponse)
            } else {
                decided.run_request_body(decided.host.request_body.flatten())
            }
        }
    }

    /// The resume of the request: the paused phase goes on at the instance
    /// after the one that paused. Where nothing is paused, or the exchange
    /// is closed, nothing happens.
    pub open spec fn continue_request(self) -> (ChainView, HostSignal) {
        if self.closed().is_some() || self.request.waiting != Waiting::Resume {
            (self, HostSignal::Ignored)
        } else {
            let resumed = ChainView {
                request: Flow { waiting: Waiting::Nothing, ..self.request },
                ..self
            };
            match self.request.stage {
                Stage::Headers => {
                    let (ran, signal) = resumed.run_request_headers();
                    ran.request_backlog(signal)
                },
                _ => resumed.run_request_body(resumed.host.request_body.flatten()),
            }
        }
    }

    /// The resume of the response: the paused phase goes on at the instance
    /// after the one that paused. Where nothing is paused, or the exchange
    /// is closed, nothing happens.
    pub open spec fn continue_response(self) -> (ChainView, HostSignal) {
        if self.closed().is_some() || self.response.waiting != Waiting::Resume {
            (self, HostSignal::Ignored)
        } else {
            let resumed = ChainView {
                response: Flow { waiting: Waiting::Nothing, ..self.response },
                ..self
            };
            match self.response.stage {
                Stage::Headers => {
                    let (ran, signal) = resumed.run_response_headers();
                    ran.response_backlog(signal)
                },
                _ => resumed.run_response_body(resumed.host.response_body.flatten()),
            }
        }
    }

    /// The resume of `direction`.
    pub open spec fn resume(self, direction: Direction) -> (ChainView, HostSignal) {
        match direction {
            Direction::Request => self.continue_request(),
            Direction::Response => self.continue_response(),
        }
    }

    /// The arrival of a resume that instance `instance` scheduled: if the
    /// instance still holds its handle, it asks the host to resume
    /// `direction`, and the driver acts on that at once; else nothing
    /// happens.
    pub open spec fn wake(self, instance: usize, direction: Direction) -> (ChainView, HostSignal) {
        if instance < self.instances.len() && self.instances[instance as int].resumes() {
            (ChainView { host: self.host.resumed(direction), ..self }).resume(direction)
        } else {
            (self, HostSignal::Ignored)
        }
    }

    /// The end of the exchange: every instance is destroyed, once.
    pub open spec fn on_destroy(self) -> ChainView {
        if self.destroyed {
            self
        } else {
            ChainView {
                instances: Seq::new(self.instances.len(), |i: int| self.instances[i].destroyed()),
                destroyed: true,
                ..self
            }
        }
    }
}

/// The instance withholds every request body frame that comes before the
/// end of the stream, and changes nothing as it does.
pub open spec fn buffers_request_body(instance: InstanceView) -> bool {
    forall|frame: Seq<u8>, host: HostView|
        #[trigger] instance.request_body(frame, false, host) == (BodyOutcome {
            instance,
            host,
            status: RequestBodyStep::Done(RequestBodyStatus::StopIterationAndBuffer),
        })
}

/// An exchange that takes request body frames and hands them to its
/// instances: it is open, the request headers have arrived and are not
/// paused, the end of the stream has not arrived, and there is an instance.
pub open spec fn takes_request_body(chain: ChainView) -> bool {
    &&& 0 < chain.instances.len() <= usize::MAX
    &&& chain.closed().is_none()
    &&& chain.request.stage != Stage::Idle
    &&& !chain.request.ended
    &&& !chain.request.headers_paused()
}

/// The exchange after each of `frames` has arrived, in order, none of them
/// with the end of the stream.
pub open spec fn after_request_frames(chain: ChainView, frames: Seq<Seq<u8>>) -> ChainView
    decreases frames.len(),
{
    if frames.len() == 0 {
        chain
    } else {
        after_request_frames(chain, frames.drop_last()).on_request_body(frames.last(), false).0
    }
}

/// An instance that notes instructions and an instance that validates the
/// body both withhold every frame before the end of the stream.
pub proof fn lemma_buffering_kinds(instance: InstanceView)
    requires
        instance is BodiesReplace || instance is ValidateJson,
    ensures
        buffers_request_body(instance),
{
}

/// Where the first instance withholds every frame before the end of the
/// stream, the frames accumulate: after any number of them the accumulated
/// body is what it was before, followed by the frames in the order of their
/// arrival, each once; every one of the calls has told the host to pause;
/// and the exchange still takes frames. So the instances that are called
/// with the last frame find, in the accumulated body, all frames and that
/// one, in order.
pub proof fn lemma_withheld_frames_accumulate(
    chain: ChainView,
    frames: Seq<Seq<u8>>,
    last: Seq<u8>,
)
    requires
        takes_request_body(chain),
        buffers_request_body(chain.instances[0]),
    ensures
        takes_request_body(after_request_frames(chain, frames)),
        after_request_frames(chain, frames).instances == chain.instances,
        after_request_frames(chain, frames).host.request_body == appended_all(
            chain.host.request_body,
            frames,
        ),
        after_request_frames(chain, frames).host.request_body.flatten()
            == chain.host.request_body.flatten() + frames.flatten(),
        frames.len() > 0 ==> after_request_frames(chain, frames.drop_last()).on_request_body(
            frames.last(),
            false,
        ).1 == HostSignal::Pause,
        appended(after_request_frames(chain, frames).host.request_body, last).flatten()
            == chain.host.request_body.flatten() + frames.flatten() + last,
    decreases frames.len(),
{
    lemma_appended_all(chain.host.request_body, frames);
    crate::buffer::lemma_appended(appended_all(chain.host.request_body, frames), last);
    if frames.len() > 0 {
        let front = frames.drop_last();
        lemma_withheld_frames_accumulate(chain, front, frames.last());
        let before = after_request_frames(chain, front);
        let frame = frames.last();
        let joined = ChainView {
            host: HostView { request_body: appended(before.host.request_body, frame), ..before.host },
            request: Flow::body(false),
            ..before
        };
        assert(joined.run_request_body(frame).0.instances =~= before.instances);
    }
}

/// Once the exchange is destroyed, nothing that arrives changes it: every
/// phase call, every outcome of decoding, every resume and every scheduled
/// resume that arrives late is ignored, and no instance is read or changed.
pub proof fn lemma_destroyed_is_final(
    chain: ChainView,
    headers: Seq<(Seq<u8>, Seq<u8>)>,
    frame: Seq<u8>,
    end_of_stream: bool,
    decoded: bool,
    instance: usize,
    direction: Direction,
)
    ensures
        ({
            let ended = chain.on_destroy();
            let ignored = (ended, HostSignal::Ignored);
            &&& ended.destroyed
            &&& ended.on_destroy() == ended
            &&& ended.on_request_headers(headers, end_of_stream) == ignored
            &&& ended.on_request_body(frame, end_of_stream) == ignored
            &&& ended.on_response_headers(headers, end_of_stream) == ignored
            &&& ended.on_response_body(frame, end_of_stream) == ignored
            &&& ended.request_body_decoded(decoded) == ignored
            &&& ended.continue_request() == ignored
            &&& ended.continue_response() == ignored
            &&& !chain.destroyed ==> ended.wake(instance, direction) == ignored
        }),
{
}

/// Once a filter has sent a response of its own, no instance is called any
/// more: every phase call leaves the exchange as it is and tells the host
/// to deliver that response, and a resume does nothing.
pub proof fn lemma_local_response_is_final(
    chain: ChainView,
    headers: Seq<(Seq<u8>, Seq<u8>)>,
    frame: Seq<u8>,
    end_of_stream: bool,
    decoded: bool,
)
    requires
        !chain.destroyed,
        chain.host.local_response.is_some(),
    ensures
        chain.on_request_headers(headers, end_of_stream) == (chain, HostSignal::LocalResponse),
        chain.on_request_body(frame, end_of_stream) == (chain, HostSignal::LocalResponse),
        chain.on_response_headers(headers, end_of_stream) == (chain, HostSignal::LocalResponse),
        chain.on_response_body(frame, end_of_stream) == (chain, HostSignal::LocalResponse),
        chain.request_body_decoded(decoded) == (chain, HostSignal::Ignored),
        chain.continue_request() == (chain, HostSignal::Ignored),
        chain.continue_response() == (chain, HostSignal::Ignored),
{
}

/// What the request headers phase does from the next instance on. It calls
/// the instances from the next one up to the one at which it ends, in
/// order, and no other: every instance before the next one, and every
/// instance after the one at which it ends, is afterwards what it was. So a
/// resume does not call again the instances that were called before the
/// pause. It tells the host to continue only when every instance was
/// called and none sent a response; to pause only when it waits for a
/// resume; and to deliver a response only when one was sent.
pub proof fn lemma_run_request_headers(chain: ChainView, other: int)
    requires
        chain.instances.len() <= usize::MAX,
        chain.request.next <= chain.instances.len(),
        chain.host.local_response.is_none(),
    ensures
        ({
            let (after, signal) = chain.run_request_headers();
            &&& after.instances.len() == chain.instances.len()
            &&& chain.request.next <= after.request.next <= chain.instances.len()
            &&& (0 <= other < chain.request.next || after.request.next <= other < chain.instances.len())
                ==> after.instances[other] == chain.instances[other]
            &&& signal == HostSignal::Continue ==> after.request.next == chain.instances.len()
                && after.host.local_response.is_none() && after.request.waiting == chain.request.waiting
            &&& signal == HostSignal::Pause ==> after.request.waiting == Waiting::Resume
                && after.host.local_response.is_none()
            &&& signal == HostSignal::LocalResponse ==> after.host.local_response.is_some()
            &&& signal != HostSignal::Decode && signal != HostSignal::Ignored
        }),
    decreases chain.instances.len() - chain.request.next,
{
    if chain.request.next < chain.instances.len() {
        let at: usize = chain.request.next;
        let outcome = chain.instances[at as int].request_headers(
            chain.request_headers,
            HostView { caller: at, ..chain.host },
        );
        let called = ChainView {
            instances: chain.instances.update(at as int, outcome.instance),
            request_headers: outcome.headers,
            host: outcome.host,
            request: Flow { next: (at + 1) as usize, ..chain.request },
            ..chain
        };
        if !outcome.host.local_response.is_some() && !outcome.status.pauses() {
            lemma_run_request_headers(called, other);
        }
    }
}

/// What the response headers phase does from the next instance on. It calls
/// the instances from the next one up to the one at which it ends, in
/// order, and no other: every instance before the next one, and every
/// instance after the one at which it ends, is afterwards what it was. So a
/// resume does not call again the instances that were called before the
/// pause. It tells the host to continue only when every instance was
/// called and none sent a response; to pause only when it waits for a
/// resume; and to deliver a response only when one was sent.
pub proof fn lemma_run_response_headers(chain: ChainView, other: int)
    requires
        chain.instances.len() <= usize::MAX,
        chain.response.next <= chain.instances.len(),
        chain.host.local_response.is_none(),
    ensures
        ({
            let (after, signal) = chain.run_response_headers();
            &&& after.instances.len() == chain.instances.len()
            &&& chain.response.next <= after.response.next <= chain.instances.len()
            &&& (0 <= other < chain.response.next || after.response.next <= other < chain.instances.len())
                ==> after.instances[other] == chain.instances[other]
            &&& signal == HostSignal::Continue ==> after.response.next == chain.instances.len()
                && after.host.local_response.is_none() && after.response.waiting == chain.response.waiting
            &&& signal == HostSignal::Pause ==> after.response.waiting == Waiting::Resume
                && after.host.local_response.is_none()
            &&& signal == HostSignal::LocalResponse ==> after.host.local_response.is_some()
            &&& signal != HostSignal::Decode && signal != HostSignal::Ignored
        }),
    decreases chain.instances.len() - chain.response.next,
{
    if chain.response.next < chain.instances.len() {
        let at: usize = chain.response.next;
        let outcome = chain.instances[at as int].response_headers(
            chain.response_headers,
            HostView { caller: at, ..chain.host },
        );
        let called = ChainView {
            instances: chain.instances.update(at as int, outcome.instance),
            response_headers: outcome.headers,
            host: outcome.host,
            response: Flow { next: (at + 1) as usize, ..chain.response },
            ..chain
        };
        if !outcome.host.local_response.is_some() && !outcome.status.pauses() {
            lemma_run_response_headers(called, other);
        }
    }
}

/// What the request body phase does for a frame from the next instance on.
/// It calls the instances from the next one up to the one at which it
/// ends, in order, and no other: every instance before the next one, and
/// every instance after the one at which it ends, is afterwards what it
/// was. It tells the host to continue only when every instance was called
/// and none sent a response; to pause only when it waits for a resume; to
/// decode only when the instance that is next waits for the outcome; and to
/// deliver a response only when one was sent.
pub proof fn lemma_run_request_body(chain: ChainView, frame: Seq<u8>, other: int)
    requires
        chain.instances.len() <= usize::MAX,
        chain.request.next <= chain.instances.len(),
        chain.host.local_response.is_none(),
    ensures
        ({
            let (after, signal) = chain.run_request_body(frame);
            &&& after.instances.len() == chain.instances.len()
            &&& chain.request.next <= after.request.next <= chain.instances.len()
            &&& (0 <= other < chain.request.next || after.request.next < other
                < chain.instances.len()) ==> after.instances[other] == chain.instances[other]
            &&& signal == HostSignal::Continue ==> after.request.next == chain.instances.len()
                && after.host.local_response.is_none() && after.request.waiting
                == chain.request.waiting
            &&& signal == HostSignal::Pause ==> after.request.waiting == Waiting::Resume
                && after.host.local_response.is_none()
            &&& signal == HostSignal::Decode ==> after.request.waiting == Waiting::Decode
                && after.request.next < chain.instances.len() && after.host.local_response.is_none()
            &&& signal == HostSignal::LocalResponse ==> after.host.local_response.is_some()
            &&& signal != HostSignal::Ignored
        }),
    decreases chain.instances.len() - chain.request.next,
{
    if chain.request.next < chain.instances.len() {
        let at: usize = chain.request.next;
        let outcome = chain.instances[at as int].request_body(
            frame,
            chain.request.ended,
            HostView { caller: at, ..chain.host },
        );
        let passed = ChainView {
            instances: chain.instances.update(at as int, outcome.instance),
            host: outcome.host,
            request: Flow { next: (at + 1) as usize, ..chain.request },
            ..chain
        };
        if !outcome.host.local_response.is_some() {
            match outcome.status {
                RequestBodyStep::Decode => {},
                RequestBodyStep::Done(status) => {
                    if !status.pauses() {
                        lemma_run_request_body(passed, frame, other);
                    }
                },
            }
        }
    }
}

/// What the response body phase does for a frame from the next instance
/// on. It calls the instances from the next one up to the one at which it
/// ends, in order, and no other: every instance before the next one, and
/// every instance after the one at which it ends, is afterwards what it
/// was. It tells the host to continue only when every instance was called
/// and none sent a response; to pause only when it waits for a resume; and
/// to deliver a response only when one was sent.
pub proof fn lemma_run_response_body(chain: ChainView, frame: Seq<u8>, other: int)
    requires
        chain.instances.len() <= usize::MAX,
        chain.response.next <= chain.instances.len(),
        chain.host.local_response.is_none(),
    ensures
        ({
            let (after, signal) = chain.run_response_body(frame);
            &&& after.instances.len() == chain.instances.len()
            &&& chain.response.next <= after.response.next <= chain.instances.len()
            &&& (0 <= other < chain.response.next || after.response.next <= other
                < chain.instances.len()) ==> after.instances[other] == chain.instances[other]
            &&& signal == HostSignal::Continue ==> after.response.next == chain.instances.len()
                && after.host.local_response.is_none() && after.response.waiting
                == chain.response.waiting
            &&& signal == HostSignal::Pause ==> after.response.waiting == Waiting::Resume
                && after.host.local_response.is_none()
            &&& signal == HostSignal::LocalResponse ==> after.host.local_response.is_some()
            &&& signal != HostSignal::Decode && signal != HostSignal::Ignored
        }),
    decreases chain.instances.len() - chain.response.next,
{
    if chain.response.next < chain.instances.len() {
        let at: usize = chain.response.next;
        let outcome = chain.instances[at as int].response_body(
            frame,
            chain.response.ended,
            HostView { caller: at, ..chain.host },
        );
        let called = ChainView {
            instances: chain.instances.update(at as int, outcome.instance),
            host: outcome.host,
            response: Flow { next: (at + 1) as usize, ..chain.response },
            ..chain
        };
        if !outcome.host.local_response.is_some() && !outcome.status.pauses() {
            lemma_run_response_body(called, frame, other);
        }
    }
}

/// The driver of one exchange: the instances of its filters in their
/// order, the host side, the headers of both directions, and how far each
/// direction has come.
pub struct FilterChain {
    instances: Vec<HttpFilterInstance>,
    host: HostContext,
    request_headers: HeaderMap,
    response_headers: HeaderMap,
    request: Flow,
    response: Flow,
    destroyed: bool,
}

impl View for FilterChain {
    type V = ChainView;

    closed spec fn view(&self) -> ChainView {
        ChainView {
            instances: Seq::new(self.instances@.len(), |i: int| self.instances@[i]@),
            host: self.host@,
            request_headers: self.request_headers@,
            response_headers: self.response_headers@,
            request: self.request,
            response: self.response,
            destroyed: self.destroyed,
        }
    }
}

impl FilterChain {
    /// The chain for a new exchange: one fresh instance of each filter, in
    /// the filters' order, each reaching the host by `handle`.
    pub fn new(filters: &mut Vec<HttpFilter>, handle: HostHandle) -> (chain: FilterChain)
        ensures
            chain@ == (ChainView {
                instances: Seq::new(
                    old(filters)@.len(),
                    |i: int| old(filters)@[i].made_instance(handle),
                ),
                host: HostView::fresh(),
                request_headers: Seq::empty(),
                response_headers: Seq::empty(),
                request: Flow::idle(),
                response: Flow::idle(),
                destroyed: false,
            }),
            final(filters)@ == Seq::new(old(filters)@.len(), |i: int| old(filters)@[i].after_instance()),
    {
        let mut instances: Vec<HttpFilterInstance> = Vec::new();
        let mut i: usize = 0;
        while i < filters.len()
            invariant
                i <= filters@.len(),
                filters@.len() == old(filters)@.len(),
                instances@.len() == i,
                forall|k: int|
                    0 <= k < i ==> (#[trigger] instances@[k])@ == old(filters)@[k].made_instance(
                        handle,
                    ),
                forall|k: int| 0 <= k < i ==> #[trigger] filters@[k] == old(filters)@[k].after_instance(),
                forall|k: int| i <= k < filters@.len() ==> #[trigger] filters@[k] == old(filters)@[k],
            decreases filters@.len() - i,
        {
            let instance = filters[i].new_instance(handle);
            instances.push(instance);
            i += 1;
        }
        let chain = FilterChain {
            instances,
            host: HostContext::new(),
            request_headers: HeaderMap::new(),
            response_headers: HeaderMap::new(),
            request: Flow {
                stage: Stage::Idle,
                next: 0,
                waiting: Waiting::Nothing,
                ended: false,
                backlog: false,
            },
            response: Flow {
                stage: Stage::Idle,
                next: 0,
                waiting: Waiting::Nothing,
                ended: false,
                backlog: false,
            },
            destroyed: false,
        };
        proof {
            assert(chain@.instances =~= Seq::new(
                old(filters)@.len(),
                |i: int| old(filters)@[i].made_instance(handle),
            ));
            assert(filters@ =~= Seq::new(
                old(filters)@.len(),
                |i: int| old(filters)@[i].after_instance(),
            ));
        }
        chain
    }

    /// The number of instances.
    pub fn len(&self) -> (count: usize)
        ensures
            count == self@.instances.len(),
    {
        self.instances.len()
    }

    /// Instance `index`, or `None` past the last.
    pub fn instance(&self, index: usize) -> (found: Option<&HttpFilterInstance>)
        ensures
            match found {
                Some(instance) => index < self@.instances.len() && instance@
                    == self@.instances[index as int],
                None => index >= self@.instances.len(),
            },
    {
        if index < self.instances.len() {
            Some(&self.instances[index])
        } else {
            None
        }
    }

    /// The host side of the exchange.
    pub fn host(&self) -> (host: &HostContext)
        ensures
            host@ == self@.host,
    {
        &self.host
    }

    /// The request headers, as the instances called so far have left them.
    pub fn request_headers(&self) -> (headers: &HeaderMap)
        ensures
            headers@ == self@.request_headers,
    {
        &self.request_headers
    }

    /// The response headers, as the instances called so far have left them.
    pub fn response_headers(&self) -> (headers: &HeaderMap)
        ensures
            headers@ == self@.response_headers,
    {
        &self.response_headers
    }

    /// The progress of the request.
    pub fn request_flow(&self) -> (flow: Flow)
        ensures
            flow == self@.request,
    {
        self.request
    }

    /// The progress of the response.
    pub fn response_flow(&self) -> (flow: Flow)
        ensures
            flow == self@.response,
    {
        self.response
    }

    /// Whether the exchange has been destroyed.
    pub fn is_destroyed(&self) -> (destroyed: bool)
        ensures
            destroyed == self@.destroyed,
    {
        self.destroyed
    }

    /// Why an inbound call finds nothing to do, if it does.
    fn closed(&self) -> (signal: Option<HostSignal>)
        ensures
            signal == self@.closed(),
    {
        if self.destroyed {
            Some(HostSignal::Ignored)
        } else if self.host.has_local_response() {
            Some(HostSignal::LocalResponse)
        } else {
            None
        }
    }

    /// Calls the instances for the request headers, from the next on.
    fn run_request_headers(&mut self) -> (signal: HostSignal)
        ensures
            (final(self)@, signal) == old(self)@.run_request_headers(),
    {
        loop
            invariant
                self@.run_request_headers() == old(self)@.run_request_headers(),
                self.instances@.len() == self@.instances.len(),
            decreases self.instances@.len() - self.request.next,
        {
            if self.request.next >= self.instances.len() {
                return HostSignal::Continue;
            }
            let at: usize = self.request.next;
            let end_of_stream = self.request.ended && !self.request.backlog;
            let ghost before = self@;
            self.host.set_caller(at);
            let status = self.instances[at].request_headers(
                &mut self.request_headers,
                end_of_stream,
                &mut self.host,
            );
            self.request.next = at + 1;
            proof {
                let outcome = before.instances[at as int].request_headers(
                    before.request_headers,
                    HostView { caller: at, ..before.host },
                );
                assert(self@.instances =~= before.instances.update(at as int, outcome.instance));
            }
            if self.host.has_local_response() {
                return HostSignal::LocalResponse;
            }
            if status.is_pause() {
                self.request.waiting = Waiting::Resume;
                return HostSignal::Pause;
            }
        }
    }

    /// Calls the instances for a frame of the request body, from the next
    /// on.
    fn run_request_body(&mut self, frame: &[u8]) -> (signal: HostSignal)
        ensures
            (final(self)@, signal) == old(self)@.run_request_body(frame@),
    {
        loop
            invariant
                self@.run_request_body(frame@) == old(self)@.run_request_body(frame@),
                self.instances@.len() == self@.instances.len(),
            decreases self.instances@.len() - self.request.next,
        {
            if self.request.next >= self.instances.len() {
                return HostSignal::Continue;
            }
            let at: usize = self.request.next;
            let end_of_stream = self.request.ended;
            let ghost before = self@;
            self.host.set_caller(at);
            let step = self.instances[at].request_body(frame, end_of_stream, &mut self.host);
            proof {
                let outcome = before.instances[at as int].request_body(
                    frame@,
                    before.request.ended,
                    HostView { caller: at, ..before.host },
                );
                assert(self@.instances =~= before.instances.update(at as int, outcome.instance));
            }
            if self.host.has_local_response() {
                self.request.next = at + 1;
                return HostSignal::LocalResponse;
            }
            match step {
                RequestBodyStep::Decode => {
                    self.request.waiting = Waiting::Decode;
                    return HostSignal::Decode;
                },
                RequestBodyStep::Done(status) => {
                    self.request.next = at + 1;
                    if status.is_pause() {
                        self.request.waiting = Waiting::Resume;
                        return HostSignal::Pause;
                    }
                },
            }
        }
    }

    /// Calls the instances for the response headers, from the next on.
    fn run_response_headers(&mut self) -> (signal: HostSignal)
        ensures
            (final(self)@, signal) == old(self)@.run_response_headers(),
    {
        loop
            invariant
                self@.run_response_headers() == old(self)@.run_response_headers(),
                self.instances@.len() == self@.instances.len(),
            decreases self.instances@.len() - self.response.next,
        {
            if self.response.next >= self.instances.len() {
                return HostSignal::Continue;
            }
            let at: usize = self.response.next;
            let end_of_stream = self.response.ended && !self.response.backlog;
            let ghost before = self@;
            self.host.set_caller(at);
            let status = self.instances[at].response_headers(
                &mut self.response_headers,
                end_of_stream,
                &mut self.host,
            );
            self.response.next = at + 1;
            proof {
                let outcome = before.instances[at as int].response_headers(
                    before.response_headers,
                    HostView { caller: at, ..before.host },
                );
                assert(self@.instances =~= before.instances.update(at as int, outcome.instance));
            }
            if self.host.has_local_response() {
                return HostSignal::LocalResponse;
            }
            if status.is_pause() {
                self.response.waiting = Waiting::Resume;
                return HostSignal::Pause;
            }
        }
    }

    /// Calls the instances for a frame of the response body, from the next
    /// on.
    fn run_response_body(&mut self, frame: &[u8]) -> (signal: HostSignal)
        ensures
            (final(self)@, signal) == old(self)@.run_response_body(frame@),
    {
        loop
            invariant
                self@.run_response_body(frame@) == old(self)@.run_response_body(frame@),
                self.instances@.len() == self@.instances.len(),
            decreases self.instances@.len() - self.response.next,
        {
            if self.response.next >= self.instances.len() {
                return HostSignal::Continue;
            }
            let at: usize = self.response.next;
            let end_of_stream = self.response.ended;
            let ghost before = self@;
            self.host.set_caller(at);
            let status = self.instances[at].response_body(frame, end_of_stream, &mut self.host);
            self.response.next = at + 1;
            proof {
                let outcome = before.instances[at as int].response_body(
                    frame@,
                    before.response.ended,
                    HostView { caller: at, ..before.host },
                );
                assert(self@.instances =~= before.instances.update(at as int, outcome.instance));
            }
            if self.host.has_local_response() {
                return HostSignal::LocalResponse;
            }
            if status.is_pause() {
                self.response.waiting = Waiting::Resume;
                return HostSignal::Pause;
            }
        }
    }

    /// Hands waiting request body frames to the instances, once the headers
    /// phase has gone through the chain.
    fn request_backlog(&mut self, signal: HostSignal) -> (after: HostSignal)
        ensures
            (final(self)@, after) == old(self)@.request_backlog(signal),
    {
        if signal == HostSignal::Continue && self.request.backlog {
            let frame = self.host.request_body().copy();
            self.request = Flow {
                stage: Stage::Body,
                next: 0,
                waiting: Waiting::Nothing,
                ended: self.request.ended,
                backlog: false,
            };
            self.run_request_body(frame.as_slice())
        } else {
            signal
        }
    }

    /// Hands waiting response body frames to the instances, once the
    /// headers phase has gone through the chain.
    fn response_backlog(&mut self, signal: HostSignal) -> (after: HostSignal)
        ensures
            (final(self)@, after) == old(self)@.response_backlog(signal),
    {
        if signal == HostSignal::Continue && self.response.backlog {
            let frame = self.host.response_body().copy();
            self.response = Flow {
                stage: Stage::Body,
                next: 0,
                waiting: Waiting::Nothing,
                ended: self.response.ended,
                backlog: false,
            };
            self.run_response_body(frame.as_slice())
        } else {
            signal
        }
    }

    /// The request headers arrive. The instances are called in their order;
    /// the first that pauses ends the call, and the instances after it wait
    /// for the resume. Once a filter has sent a response of its own, no
    /// instance is called any more. Headers that arrive a second time, or
    /// after the exchange was destroyed, are ignored.
    pub fn on_request_headers(&mut self, headers: HeaderMap, end_of_stream: bool) -> (signal:
        HostSignal)
        ensures
            (final(self)@, signal) == old(self)@.on_request_headers(headers@, end_of_stream),
    {
        match self.closed() {
            Some(signal) => signal,
            None => {
                if self.request.stage != Stage::Idle {
                    return HostSignal::Ignored;
                }
                self.request_headers = headers;
                self.request = Flow {
                    stage: Stage::Headers,
                    next: 0,
                    waiting: Waiting::Nothing,
                    ended: end_of_stream,
                    backlog: false,
                };
                self.run_request_headers()
            },
        }
    }

    /// The response headers arrive. The instances are called in their
    /// order; the first that pauses ends the call, and the instances after
    /// it wait for the resume. Once a filter has sent a response of its
    /// own, no instance is called any more. Headers that arrive a second
    /// time, or after the exchange was destroyed, are ignored.
    pub fn on_response_headers(&mut self, headers: HeaderMap, end_of_stream: bool) -> (signal:
        HostSignal)
        ensures
            (final(self)@, signal) == old(self)@.on_response_headers(headers@, end_of_stream),
    {
        match self.closed() {
            Some(signal) => signal,
            None => {
                if self.response.stage != Stage::Idle {
                    return HostSignal::Ignored;
                }
                self.response_headers = headers;
                self.response = Flow {
                    stage: Stage::Headers,
                    next: 0,
                    waiting: Waiting::Nothing,
                    ended: end_of_stream,
                    backlog: false,
                };
                self.run_response_headers()
            },
        }
    }

    /// A frame of the request body arrives. It joins the accumulated body
    /// as a new segment, after the frames before it. While the headers are
    /// paused it waits there; else the instances are called with it, from
    /// the first on, and the first that pauses ends the call. A frame that
    /// arrives before the headers, after the end of the stream, or after
    /// the exchange was destroyed is ignored.
    pub fn on_request_body(&mut self, frame: &[u8], end_of_stream: bool) -> (signal: HostSignal)
        ensures
            (final(self)@, signal) == old(self)@.on_request_body(frame@, end_of_stream),
    {
        match self.closed() {
            Some(signal) => signal,
            None => {
                if self.request.stage == Stage::Idle || self.request.ended {
                    return HostSignal::Ignored;
                }
                self.host.get_request_body_buffer().append(frame);
                self.request.ended = end_of_stream;
                if self.request.stage == Stage::Headers && self.request.waiting == Waiting::Resume {
                    self.request.backlog = true;
                    return HostSignal::Pause;
                }
                self.request = Flow {
                    stage: Stage::Body,
                    next: 0,
                    waiting: Waiting::Nothing,
                    ended: end_of_stream,
                    backlog: false,
                };
                self.run_request_body(frame)
            },
        }
    }

    /// A frame of the response body arrives. It joins the accumulated body
    /// as a new segment, after the frames before it. While the headers are
    /// paused it waits there; else the instances are called with it, from
    /// the first on, and the first that pauses ends the call. A frame that
    /// arrives before the headers, after the end of the stream, or after
    /// the exchange was destroyed is ignored.
    pub fn on_response_body(&mut self, frame: &[u8], end_of_stream: bool) -> (signal: HostSignal)
        ensures
            (final(self)@, signal) == old(self)@.on_response_body(frame@, end_of_stream),
    {
        match self.closed() {
            Some(signal) => signal,
            None => {
                if self.response.stage == Stage::Idle || self.response.ended {
                    return HostSignal::Ignored;
                }
                self.host.get_response_body_buffer().append(frame);
                self.response.ended = end_of_stream;
                if self.response.stage == Stage::Headers && self.response.waiting
                    == Waiting::Resume {
                    self.response.backlog = true;
                    return HostSignal::Pause;
                }
                self.response = Flow {
                    stage: Stage::Body,
                    next: 0,
                    waiting: Waiting::Nothing,
                    ended: end_of_stream,
                    backlog: false,
                };
                self.run_response_body(frame)
            },
        }
    }

    /// The accumulated request body was decoded for the instance that
    /// asked: `decoded` is the document, or `None` when the body did not
    /// decode. The instance decides, and the instances after it are called
    /// with the whole accumulated body as their frame. Where no instance
    /// has asked, the call is ignored.
    pub fn request_body_decoded(&mut self, decoded: Option<ValidateJsonFilterBody>) -> (signal:
        HostSignal)
        ensures
            (final(self)@, signal) == old(self)@.request_body_decoded(decoded.is_some()),
    {
        if self.closed().is_some() || self.request.waiting != Waiting::Decode || self.request.next
            >= self.instances.len() {
            return HostSignal::Ignored;
        }
        let at: usize = self.request.next;
        let ghost before = self@;
        self.host.set_caller(at);
        let status = self.instances[at].request_body_decoded(decoded, &mut self.host);
        self.request.next = at + 1;
        self.request.waiting = Waiting::Nothing;
        proof {
            let outcome = before.instances[at as int].request_body_decoded(
                decoded.is_some(),
                HostView { caller: at, ..before.host },
            );
            assert(self@.instances =~= before.instances.update(at as int, outcome.instance));
        }
        if self.host.has_local_response() {
            return HostSignal::LocalResponse;
        }
        let frame = self.host.request_body().copy();
        self.run_request_body(frame.as_slice())
    }

    /// Resumes the request: the paused phase goes on at the instance after
    /// the one that paused, and the instances before it are not called
    /// again. If the headers were paused and body frames have been waiting,
    /// they are handed to the instances once the headers are through. May
    /// be called any number of times: where nothing is paused, after a
    /// filter has sent a response of its own, and after the exchange was
    /// destroyed, it does nothing.
    pub fn continue_request(&mut self) -> (signal: HostSignal)
        ensures
            (final(self)@, signal) == old(self)@.continue_request(),
    {
        if self.closed().is_some() || self.request.waiting != Waiting::Resume {
            return HostSignal::Ignored;
        }
        self.request.waiting = Waiting::Nothing;
        match self.request.stage {
            Stage::Headers => {
                let signal = self.run_request_headers();
                self.request_backlog(signal)
            },
            _ => {
                let frame = self.host.request_body().copy();
                self.run_request_body(frame.as_slice())
            },
        }
    }

    /// Resumes the response: the paused phase goes on at the instance after
    /// the one that paused, and the instances before it are not called
    /// again. If the headers were paused and body frames have been waiting,
    /// they are handed to the instances once the headers are through. May
    /// be called any number of times: where nothing is paused, after a
    /// filter has sent a response of its own, and after the exchange was
    /// destroyed, it does nothing.
    pub fn continue_response(&mut self) -> (signal: HostSignal)
        ensures
            (final(self)@, signal) == old(self)@.continue_response(),
    {
        if self.closed().is_some() || self.response.waiting != Waiting::Resume {
            return HostSignal::Ignored;
        }
        self.response.waiting = Waiting::Nothing;
        match self.response.stage {
            Stage::Headers => {
                let signal = self.run_response_headers();
                self.response_backlog(signal)
            },
            _ => {
                let frame = self.host.response_body().copy();
                self.run_response_body(frame.as_slice())
            },
        }
    }

    /// A resume that instance `instance` scheduled arrives. If the instance
    /// still holds its handle, `direction` is resumed. If the instance was
    /// destroyed meanwhile, or there is no such instance, nothing is read
    /// or changed.
    pub fn wake(&mut self, instance: usize, direction: Direction) -> (signal: HostSignal)
        ensures
            (final(self)@, signal) == old(self)@.wake(instance, direction),
    {
        if instance >= self.instances.len() {
            return HostSignal::Ignored;
        }
        let ghost before = self@;
        let asked = self.instances[instance].resume(direction, &mut self.host);
        if !asked {
            return HostSignal::Ignored;
        }
        let _ = self.host.take_resume(direction);
        assert(self@ == (ChainView { host: before.host.resumed(direction), ..before }));
        match direction {
            Direction::Request => self.continue_request(),
            Direction::Response => self.continue_response(),
        }
    }

    /// The exchange ends: every instance is destroyed and gives up the
    /// handle it holds, so that a resume that is still on its way does
    /// nothing. Destroying twice is destroying once.
    pub fn on_destroy(&mut self)
        ensures
            final(self)@ == old(self)@.on_destroy(),
    {
        if self.destroyed {
            return;
        }
        let mut i: usize = 0;
        while i < self.instances.len()
            invariant
                i <= self.instances@.len(),
                self.instances@.len() == old(self)@.instances.len(),
                self@ == (ChainView { instances: self@.instances, ..old(self)@ }),
                forall|k: int|
                    0 <= k < i ==> #[trigger] self@.instances[k] == old(
                        self
                    )@.instances[k].destroyed(),
                forall|k: int|
                    i <= k < self@.instances.len() ==> #[trigger] self@.instances[k] == old(
                        self
                    )@.instances[k],
            decreases self.instances@.len() - i,
        {
            let ghost before = self@;
            self.instances[i].destroy();
            proof {
                assert(self@.instances =~= before.instances.update(
                    i as int,
                    before.instances[i as int].destroyed(),
                ));
            }
            i += 1;
        }
        self.destroyed = true;
        proof {
            assert(self@.instances =~= old(self)@.on_destroy().instances);
        }
    }

    /// Hands over the accumulated request body, to be forwarded: its
    /// content is returned and the buffer is left empty, so that no byte is
    /// handed over twice.
    pub fn take_request_body(&mut self) -> (body: Vec<u8>)
        ensures
            body@ == old(self)@.host.request_body.flatten(),
            final(self)@ == (ChainView {
                host: HostView { request_body: Seq::empty(), ..old(self)@.host },
                ..old(self)@
            }),
    {
        let buffer = self.host.get_request_body_buffer();
        let body = buffer.copy();
        let none: Vec<u8> = Vec::new();
        buffer.replace(none.as_slice());
        body
    }

    /// Hands over the accumulated response body, to be forwarded: its
    /// content is returned and the buffer is left empty, so that no byte is
    /// handed over twice.
    pub fn take_response_body(&mut self) -> (body: Vec<u8>)
        ensures
            body@ == old(self)@.host.response_body.flatten(),
            final(self)@ == (ChainView {
                host: HostView { response_body: Seq::empty(), ..old(self)@.host },
                ..old(self)@
            }),
    {
        let buffer = self.host.get_response_body_buffer();
        let body = buffer.copy();
        let none: Vec<u8> = Vec::new();
        buffer.replace(none.as_slice());
        body
    }

    /// Hands over the resumes that the instances asked to have made later,
    /// oldest first. Each is to be brought back by `wake`, with its
    /// instance and direction, when its wait is over.
    pub fn take_scheduled(&mut self) -> (scheduled: Vec<crate::host::ScheduledResume>)
        ensures
            scheduled@ == old(self)@.host.scheduled,
            final(self)@ == (ChainView {
                host: HostView { scheduled: Seq::empty(), ..old(self)@.host },
                ..old(self)@
            }),
    {
        self.host.take_scheduled()
    }
}

} // verus!

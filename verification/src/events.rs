use crate::component::UID;
use crate::component::UID_SIZE;
use std::collections::VecDeque;
use vstd::prelude::*;
use vstd::string::StringExecFns;

verus! {

/// The decimal digit `d` as a character.
pub open spec fn spec_digit_char(d: nat) -> char {
    if d == 0 {
        '0'
    } else if d == 1 {
        '1'
    } else if d == 2 {
        '2'
    } else if d == 3 {
        '3'
    } else if d == 4 {
        '4'
    } else if d == 5 {
        '5'
    } else if d == 6 {
        '6'
    } else if d == 7 {
        '7'
    } else if d == 8 {
        '8'
    } else {
        '9'
    }
}

/// The decimal digits of `n`, most significant first, without leading zeros.
pub open spec fn spec_decimal_digits(n: nat) -> Seq<char>
    decreases n,
{
    if n < 10 {
        seq![spec_digit_char(n)]
    } else {
        spec_decimal_digits(n / 10).push(spec_digit_char(n % 10))
    }
}

/// The decimal text of an integer: a minus sign for negative values, then the
/// digits of the magnitude.
pub open spec fn spec_decimal(v: int) -> Seq<char> {
    if v < 0 {
        seq!['-'] + spec_decimal_digits((-v) as nat)
    } else {
        spec_decimal_digits(v as nat)
    }
}

fn digit_str(d: u64) -> (s: &'static str)
    requires
        d < 10,
    ensures
        s@ == seq![spec_digit_char(d as nat)],
{
    proof {
        reveal_strlit("0");
        reveal_strlit("1");
        reveal_strlit("2");
        reveal_strlit("3");
        reveal_strlit("4");
        reveal_strlit("5");
        reveal_strlit("6");
        reveal_strlit("7");
        reveal_strlit("8");
        reveal_strlit("9");
    }
    let s = if d == 0 {
        "0"
    } else if d == 1 {
        "1"
    } else if d == 2 {
        "2"
    } else if d == 3 {
        "3"
    } else if d == 4 {
        "4"
    } else if d == 5 {
        "5"
    } else if d == 6 {
        "6"
    } else if d == 7 {
        "7"
    } else if d == 8 {
        "8"
    } else {
        "9"
    };
    assert(s@ =~= seq![spec_digit_char(d as nat)]);
    s
}

fn push_digits(text: &mut String, n: u64)
    ensures
        final(text)@ == old(text)@ + spec_decimal_digits(n as nat),
    decreases n,
{
    if n >= 10 {
        push_digits(text, n / 10);
    }
    text.append(digit_str(n % 10));
    assert(final(text)@ =~= old(text)@ + spec_decimal_digits(n as nat));
}

/// Writes an integer in decimal.
pub fn decimal(v: i64) -> (text: String)
    ensures
        text@ == spec_decimal(v as int),
{
    let mut text = String::new();
    if v < 0 {
        proof {
            reveal_strlit("-");
        }
        text.append("-");
        let magnitude: u64 = if v == i64::MIN {
            9223372036854775808u64
        } else {
            (-v) as u64
        };
        push_digits(&mut text, magnitude);
        assert(text@ =~= spec_decimal(v as int));
    } else {
        push_digits(&mut text, v as u64);
        assert(text@ =~= spec_decimal(v as int));
    }
    text
}

/// One argument of a signal: its text, and whether the text is a number
/// written in decimal.
#[derive(Debug, Clone, PartialEq, Eq)]
pub struct C_Param {
    pub text: String,
    pub is_num: bool,
}

/// What a [`C_Param`] stands for in contracts.
pub struct ParamView {
    pub text: Seq<char>,
    pub is_num: bool,
}

impl View for C_Param {
    type V = ParamView;

    open spec fn view(&self) -> ParamView {
        ParamView { text: self.text@, is_num: self.is_num }
    }
}

/// The views of a list of arguments, in order.
pub open spec fn spec_params(params: Seq<C_Param>) -> Seq<ParamView> {
    params.map_values(|p: C_Param| p@)
}

/// The arguments that stand for a list of numbers: each one is the decimal
/// text of its number and is flagged numeric.
pub open spec fn spec_num_params(values: Seq<i64>) -> Seq<ParamView> {
    values.map_values(|v: i64| ParamView { text: spec_decimal(v as int), is_num: true })
}

impl C_Param {
    /// A text argument.
    pub fn from_str(str: &str) -> (param: Self)
        ensures
            param@ == (ParamView { text: str@, is_num: false }),
    {
        C_Param { text: str.to_owned(), is_num: false }
    }

    /// An argument holding the decimal text of `v`, flagged as `is_num` says.
    pub fn from(v: i64, is_num: bool) -> (param: Self)
        ensures
            param@ == (ParamView { text: spec_decimal(v as int), is_num }),
    {
        C_Param { text: decimal(v), is_num }
    }

    /// The empty text argument.
    pub fn default() -> (param: Self)
        ensures
            param@ == (ParamView { text: Seq::<char>::empty(), is_num: false }),
    {
        C_Param { text: String::new(), is_num: false }
    }

    /// The text of the argument, consuming it.
    pub fn to_string(self) -> (text: String)
        ensures
            text@ == self@.text,
    {
        self.text
    }

    /// The text of the argument.
    pub fn as_str(&self) -> (text: &str)
        ensures
            text@ == self@.text,
    {
        self.text.as_str()
    }
}

/// An event on the bus: a kind tag, the identifier of the component it comes
/// from, and its arguments in order. A signal without a kind is the empty
/// signal that a poll hands out when nothing is queued; a signal with a kind
/// and no arguments is an ordinary event.
#[derive(Debug, Clone, PartialEq, Eq)]
pub struct Signal {
    pub eventType: Option<&'static str>,
    pub component: UID,
    pub args: Vec<C_Param>,
}

/// What a [`Signal`] stands for in contracts.
pub struct SignalView {
    pub kind: Option<Seq<char>>,
    pub origin: Seq<u8>,
    pub args: Seq<ParamView>,
}

impl View for Signal {
    type V = SignalView;

    open spec fn view(&self) -> SignalView {
        SignalView {
            kind: match self.eventType {
                Some(kind) => Some(kind@),
                None => None,
            },
            origin: self.component@,
            args: spec_params(self.args@),
        }
    }
}

/// The empty signal: no kind, the all-zero identifier, no arguments.
pub open spec fn spec_empty_signal() -> SignalView {
    SignalView {
        kind: None,
        origin: Seq::new(UID_SIZE as nat, |i: int| 0u8),
        args: Seq::<ParamView>::empty(),
    }
}

impl Signal {
    /// An event whose arguments are numbers.
    pub fn numArgs(eventType: &'static str, component: UID, vec: Vec<i64>) -> (signal: Self)
        ensures
            signal@ == (SignalView {
                kind: Some(eventType@),
                origin: component@,
                args: spec_num_params(vec@),
            }),
    {
        let mut args: Vec<C_Param> = Vec::new();
        let mut i: usize = 0;
        while i < vec.len()
            invariant
                i <= vec.len(),
                args@.len() == i,
                forall|k: int|
                    0 <= k < i ==> (#[trigger] args@[k])@ == (ParamView {
                        text: spec_decimal(vec@[k] as int),
                        is_num: true,
                    }),
            decreases vec.len() - i,
        {
            let param = C_Param::from(vec[i], true);
            args.push(param);
            i += 1;
        }
        assert(spec_params(args@) =~= spec_num_params(vec@));
        Signal { eventType: Some(eventType), component, args }
    }

    /// An event with the given arguments.
    pub fn raw(eventType: &'static str, component: UID, params: Vec<C_Param>) -> (signal: Self)
        ensures
            signal@ == (SignalView {
                kind: Some(eventType@),
                origin: component@,
                args: spec_params(params@),
            }),
    {
        Signal { eventType: Some(eventType), component, args: params }
    }

    /// The empty signal.
    pub fn default() -> (signal: Self)
        ensures
            signal@ == spec_empty_signal(),
    {
        let signal = Signal { eventType: None, component: [0u8; UID_SIZE], args: Vec::new() };
        assert(signal@.origin =~= spec_empty_signal().origin);
        assert(signal@.args =~= spec_empty_signal().args);
        signal
    }

    /// An event without arguments.
    pub fn noArgs(eventType: &'static str, comp: UID) -> (signal: Self)
        ensures
            signal@ == (SignalView {
                kind: Some(eventType@),
                origin: comp@,
                args: Seq::<ParamView>::empty(),
            }),
    {
        let signal = Signal { eventType: Some(eventType), component: comp, args: Vec::new() };
        assert(signal@.args =~= Seq::<ParamView>::empty());
        signal
    }

    /// The kind of an event. The empty signal has none.
    pub fn name(&self) -> (kind: &'static str)
        requires
            self@.kind is Some,
        ensures
            Some(kind@) == self@.kind,
    {
        match self.eventType {
            Some(kind) => kind,
            None => "",
        }
    }

    /// Whether this is the empty signal of an idle poll rather than an event.
    pub fn is_empty(&self) -> (empty: bool)
        ensures
            empty == (self@.kind is None),
    {
        self.eventType.is_none()
    }

    /// The number of arguments.
    pub fn len(&self) -> (n: usize)
        ensures
            n == self@.args.len(),
    {
        self.args.len()
    }
}

/// The queue after one more event was sent: the event stands last.
pub open spec fn spec_send(queue: Seq<SignalView>, event: SignalView) -> Seq<SignalView> {
    queue.push(event)
}

/// The queue after a run of events was sent one after the other.
pub open spec fn spec_send_all(queue: Seq<SignalView>, events: Seq<SignalView>) -> Seq<
    SignalView,
>
    decreases events.len(),
{
    if events.len() == 0 {
        queue
    } else {
        spec_send_all(spec_send(queue, events[0]), events.skip(1))
    }
}

/// What a poll takes from the queue: the oldest event, or the empty signal
/// when nothing is queued.
pub open spec fn spec_polled(queue: Seq<SignalView>) -> SignalView {
    if queue.len() == 0 {
        spec_empty_signal()
    } else {
        queue[0]
    }
}

/// The queue after a poll: without its oldest event.
pub open spec fn spec_after_poll(queue: Seq<SignalView>) -> Seq<SignalView> {
    if queue.len() == 0 {
        queue
    } else {
        queue.skip(1)
    }
}

/// The queue after `n` polls.
pub open spec fn spec_after_polls(queue: Seq<SignalView>, n: nat) -> Seq<SignalView>
    decreases n,
{
    if n == 0 {
        queue
    } else {
        spec_after_polls(spec_after_poll(queue), (n - 1) as nat)
    }
}

/// How a poll behaves while nothing is queued.
#[derive(Debug, Clone, Copy, PartialEq, Eq)]
pub enum PollMode {
    /// Never wait: hand out the empty signal at once.
    NonBlocking,
    /// Wait for an event for at most this many milliseconds, then hand out
    /// the empty signal. A timeout of zero never waits.
    Timeout(u64),
    /// Wait for an event without limit.
    Blocking,
}

/// What a poll decided.
#[derive(Debug, Clone, PartialEq, Eq)]
pub enum PollOutcome {
    /// The poll is over and yields this signal: the oldest queued event, or
    /// the empty signal.
    Ready(Signal),
    /// Nothing is queued and the mode allows waiting: wait until an event is
    /// sent, for at most the given number of milliseconds or without limit,
    /// and poll again.
    Wait(Option<u64>),
}

/// Whether a poll in `mode`, begun `waited` milliseconds ago, may still wait
/// when nothing is queued.
pub open spec fn spec_may_wait(mode: PollMode, waited: u64) -> bool {
    match mode {
        PollMode::NonBlocking => false,
        PollMode::Timeout(limit) => waited < limit,
        PollMode::Blocking => true,
    }
}

/// For how long such a poll may wait: the rest of its timeout, or without
/// limit.
pub open spec fn spec_wait_time(mode: PollMode, waited: u64) -> Option<u64> {
    match mode {
        PollMode::Timeout(limit) => Some((limit - waited) as u64),
        _ => None,
    }
}

/// The producer side of the bus: a handle stamped with the identifier of the
/// component that publishes through it.
#[derive(Debug, Clone, Copy, PartialEq, Eq)]
pub struct EventEmitter {
    owner: UID,
}

impl EventEmitter {
    /// The identifier this emitter is stamped with.
    pub closed spec fn spec_owner(&self) -> UID {
        self.owner
    }

    /// Puts `event` at the end of the queue of `bus`. Sending never fails
    /// towards the caller: once the bus is closed the event is dropped.
    pub fn send(&mut self, bus: &mut EventHandler, event: Signal)
        ensures
            *final(self) == *old(self),
            final(bus).spec_is_open() == old(bus).spec_is_open(),
            old(bus).spec_is_open() ==> final(bus)@ == spec_send(old(bus)@, event@),
            !old(bus).spec_is_open() ==> final(bus)@ == old(bus)@,
    {
        bus.accept(event);
    }

    /// The identifier this emitter is stamped with.
    #[verifier::when_used_as_spec(spec_owner)]
    pub fn owner(&self) -> (owner: UID)
        ensures
            owner == self.spec_owner(),
    {
        self.owner
    }
}

/// The consumer side of the bus. It owns the queue: an unbounded list of
/// signals that leaves in the order of arrival.
pub struct EventHandler {
    queue: VecDeque<Signal>,
    open: bool,
}

impl View for EventHandler {
    type V = Seq<SignalView>;

    closed spec fn view(&self) -> Seq<SignalView> {
        self.queue@.map_values(|s: Signal| s@)
    }
}

impl EventHandler {
    /// Whether the bus still takes events.
    pub closed spec fn spec_is_open(&self) -> bool {
        self.open
    }

    /// Whether a poll in `mode`, begun `waited` milliseconds ago, finds
    /// nothing to hand out and has to wait: the bus is open, nothing is
    /// queued, and the mode still allows waiting.
    pub open spec fn spec_poll_waits(&self, mode: PollMode, waited: u64) -> bool {
        self@.len() == 0 && self.spec_is_open() && spec_may_wait(mode, waited)
    }

    /// A new bus: open, with nothing queued.
    pub fn new() -> (bus: Self)
        ensures
            bus@ == Seq::<SignalView>::empty(),
            bus.spec_is_open(),
    {
        let bus = EventHandler { queue: VecDeque::new(), open: true };
        assert(bus@ =~= Seq::<SignalView>::empty());
        bus
    }

    /// A producer handle for the component `owner`.
    pub fn new_emitter(&self, owner: UID) -> (emitter: EventEmitter)
        ensures
            emitter.spec_owner() == owner,
    {
        EventEmitter { owner }
    }

    /// Whether the bus still takes events.
    #[verifier::when_used_as_spec(spec_is_open)]
    pub fn is_open(&self) -> (open: bool)
        ensures
            open == self.spec_is_open(),
    {
        self.open
    }

    /// The number of queued events.
    pub fn len(&self) -> (n: usize)
        ensures
            n == self@.len(),
    {
        self.queue.len()
    }

    fn accept(&mut self, event: Signal)
        ensures
            final(self).spec_is_open() == old(self).spec_is_open(),
            old(self).spec_is_open() ==> final(self)@ == spec_send(old(self)@, event@),
            !old(self).spec_is_open() ==> final(self)@ == old(self)@,
    {
        if self.open {
            self.queue.push_back(event);
            assert(self@ =~= spec_send(old(self)@, event@));
        }
    }

    /// One step of a poll in `mode` that began `waited` milliseconds ago.
    ///
    /// The oldest queued event is handed out whatever the mode. With nothing
    /// queued the mode decides: the empty signal at once, or a wait for the
    /// rest of the timeout or without limit, after which the caller polls
    /// again. A closed bus never waits.
    pub fn poll(&mut self, mode: PollMode, waited: u64) -> (outcome: PollOutcome)
        ensures
            final(self)@ == spec_after_poll(old(self)@),
            final(self).spec_is_open() == old(self).spec_is_open(),
            old(self).spec_poll_waits(mode, waited) ==> outcome == PollOutcome::Wait(
                spec_wait_time(mode, waited),
            ),
            !old(self).spec_poll_waits(mode, waited) ==> ({
                &&& outcome matches PollOutcome::Ready(signal)
                &&& signal@ == spec_polled(old(self)@)
            }),
    {
        match self.queue.pop_front() {
            Some(signal) => {
                assert(self@ =~= old(self)@.skip(1));
                PollOutcome::Ready(signal)
            },
            None => {
                assert(self@ =~= old(self)@);
                if !self.open {
                    PollOutcome::Ready(Signal::default())
                } else {
                    match mode {
                        PollMode::NonBlocking => PollOutcome::Ready(Signal::default()),
                        PollMode::Timeout(limit) => {
                            if waited < limit {
                                PollOutcome::Wait(Some(limit - waited))
                            } else {
                                PollOutcome::Ready(Signal::default())
                            }
                        },
                        PollMode::Blocking => PollOutcome::Wait(None),
                    }
                }
            },
        }
    }

    /// Tears the consumer side down: what is queued is discarded, and what
    /// is sent from now on is dropped.
    pub fn close(&mut self)
        ensures
            !final(self).spec_is_open(),
            final(self)@ == Seq::<SignalView>::empty(),
    {
        self.queue.clear();
        self.open = false;
        assert(self@ =~= Seq::<SignalView>::empty());
    }
}

/// Events leave the bus in the order in which they were sent: after a run
/// of sends into an empty queue, the `i`-th poll yields the `i`-th event
/// sent, and once all are taken a poll yields the empty signal.
pub proof fn lemma_polls_follow_sends(events: Seq<SignalView>)
    ensures
        forall|i: int|
            0 <= i < events.len() ==> spec_polled(
                #[trigger] spec_after_polls(
                    spec_send_all(Seq::<SignalView>::empty(), events),
                    i as nat,
                ),
            ) == events[i],
        spec_polled(
            spec_after_polls(spec_send_all(Seq::<SignalView>::empty(), events), events.len()),
        ) == spec_empty_signal(),
{
    let queue = spec_send_all(Seq::<SignalView>::empty(), events);
    lemma_send_all_appends(Seq::<SignalView>::empty(), events);
    assert(queue =~= events);
    assert forall|i: int| 0 <= i <= events.len() implies #[trigger] spec_after_polls(
        queue,
        i as nat,
    ) == events.skip(i) by {
        lemma_polls_skip(events, i as nat);
    }
}

/// Sending a run of events appends them to the queue in order.
pub proof fn lemma_send_all_appends(queue: Seq<SignalView>, events: Seq<SignalView>)
    ensures
        spec_send_all(queue, events) == queue + events,
    decreases events.len(),
{
    if events.len() == 0 {
        assert(queue + events =~= queue);
    } else {
        lemma_send_all_appends(spec_send(queue, events[0]), events.skip(1));
        assert(spec_send(queue, events[0]) + events.skip(1) =~= queue + events);
    }
}

/// Polling `n` times takes the `n` oldest events.
pub proof fn lemma_polls_skip(queue: Seq<SignalView>, n: nat)
    requires
        n <= queue.len(),
    ensures
        spec_after_polls(queue, n) == queue.skip(n as int),
    decreases n,
{
    if n == 0 {
        assert(queue.skip(0) =~= queue);
    } else {
        lemma_polls_skip(spec_after_poll(queue), (n - 1) as nat);
        assert(queue.skip(1).skip(n - 1) =~= queue.skip(n as int));
    }
}

} // verus!

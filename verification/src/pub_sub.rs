//! Keyed broadcast registry: one bounded broadcast stream per [`Channel`].
//!
//! The streams are `tokio` broadcast channels. The registry keeps the sending
//! end of each, and one receiving end so that the stream stays open; the
//! receivers it hands out belong to their subscribers. The receiver that
//! the registry keeps is no subscriber: it never reads, and it is not
//! counted where subscribers are counted.
//!
//! The registry is a plain value. Code that shares it between threads puts it
//! behind one lock of its own.
//!
//! The contracts speak of a model, [`Registry`]: the keys of the streams and,
//! for each, the values that it has accepted. What a receiver receives is a
//! function of that log and of the receiver's place in it, [`receive_spec`];
//! the laws of the registry are proved of the two.

use vstd::prelude::*;

verus! {

/// Slots of one stream: a subscriber that falls further behind than this
/// loses the oldest values.
pub const MAX_PUB_SUB_CONNECTIONS: usize = 1024;

/// Key of one logical broadcast stream.
#[derive(Debug, Clone, Eq, PartialEq, Hash)]
pub struct Channel {
    pub identity: u32,
    pub address: String,
}

impl View for Channel {
    type V = (u32, Seq<char>);

    open spec fn view(&self) -> (u32, Seq<char>) {
        (self.identity, self.address@)
    }
}

impl Channel {
    pub fn new(identity: u32, address: &str) -> (channel: Self)
        ensures
            channel@ == (identity, address@),
    {
        Self { identity, address: address.to_owned() }
    }

    /// Whether two keys name the same stream.
    pub fn same(&self, other: &Channel) -> (r: bool)
        ensures
            r == (self@ == other@),
    {
        self.identity == other.identity && self.address == other.address
    }
}

/// What moves through a stream.
#[derive(Debug, Clone, Eq, PartialEq)]
pub enum Msg<T> {
    Ping,
    Pong,
    Op(T),
}

impl<T: View> View for Msg<T> {
    type V = Msg<T::V>;

    open spec fn view(&self) -> Msg<T::V> {
        match self {
            Msg::Ping => Msg::Ping,
            Msg::Pong => Msg::Pong,
            Msg::Op(x) => Msg::Op(x@),
        }
    }
}

impl<T> Msg<T> {
    /// The payload of an `Op`, nothing for `Ping` and `Pong`.
    pub fn op(&self) -> (r: Option<&T>)
        ensures
            r == (match *self {
                Msg::Op(x) => Some(&x),
                _ => None,
            }),
    {
        match self {
            Msg::Op(x) => Some(x),
            _ => None,
        }
    }
}

#[verifier::external_type_specification]
#[verifier::external_body]
#[verifier::reject_recursive_types(T)]
pub struct ExBroadcastSender<T>(tokio::sync::broadcast::Sender<T>);

#[verifier::external_type_specification]
#[verifier::external_body]
#[verifier::reject_recursive_types(T)]
pub struct ExBroadcastReceiver<T>(tokio::sync::broadcast::Receiver<T>);

/// The values that a stream has accepted so far, oldest first.
pub uninterp spec fn channel_log(tx: tokio::sync::broadcast::Sender<Msg<String>>) -> Seq<
    Msg<Seq<char>>,
>;

/// The place of a receiver in its stream: how many values the stream had
/// accepted before the one that the receiver reads next.
pub uninterp spec fn receiver_cursor(rx: tokio::sync::broadcast::Receiver<Msg<String>>) -> nat;

/// Whether a receiver is one of the stream that a sender sends to.
pub uninterp spec fn listens_to(
    rx: tokio::sync::broadcast::Receiver<Msg<String>>,
    tx: tokio::sync::broadcast::Sender<Msg<String>>,
) -> bool;

/// The number of receivers that a stream had when it accepted its newest
/// value: what the `send` that the value came with returned.
pub uninterp spec fn newest_reach(tx: tokio::sync::broadcast::Sender<Msg<String>>) -> nat;

/// `tokio::sync::broadcast::channel` with [`MAX_PUB_SUB_CONNECTIONS`] slots:
/// a new stream that has accepted nothing, and its first receiver, which
/// stands at the start.
#[verifier::external_body]
fn open_stream() -> (r: (
    tokio::sync::broadcast::Sender<Msg<String>>,
    tokio::sync::broadcast::Receiver<Msg<String>>,
))
    ensures
        channel_log(r.0) == Seq::<Msg<Seq<char>>>::empty(),
        receiver_cursor(r.1) == 0,
        listens_to(r.1, r.0),
{
    tokio::sync::broadcast::channel(MAX_PUB_SUB_CONNECTIONS)
}

/// `Sender::send`, for a stream of which the caller holds a receiver: the
/// stream then has a receiver, so the value is accepted after all earlier
/// ones, and the number of receivers that the stream has, at least one, is
/// returned. (With no receiver left, `send` hands the value back; that
/// cannot happen here.) A full stream overwrites its oldest slot; the
/// sender never waits. The receivers of the stream stay its receivers.
#[verifier::external_body]
fn send(
    tx: &mut tokio::sync::broadcast::Sender<Msg<String>>,
    listener: &tokio::sync::broadcast::Receiver<Msg<String>>,
    msg: Msg<String>,
) -> (n: usize)
    requires
        listens_to(*listener, *old(tx)),
    ensures
        n >= 1,
        channel_log(*final(tx)) == channel_log(*old(tx)).push(msg@),
        newest_reach(*final(tx)) == n,
        forall|rx: tokio::sync::broadcast::Receiver<Msg<String>>|
            listens_to(rx, *old(tx)) ==> #[trigger] listens_to(rx, *final(tx)),
{
    tx.send(msg).unwrap_or(0)
}

/// `Sender::subscribe`: a new receiver of the sender's stream, which sees
/// the values accepted after this call, and none before. The stream itself
/// is as it was. (It panics where the stream has `usize::MAX / 4`
/// receivers, more than a process can hold.)
#[verifier::external_body]
fn attach(tx: &tokio::sync::broadcast::Sender<Msg<String>>) -> (rx: tokio::sync::broadcast::Receiver<
    Msg<String>,
>)
    ensures
        receiver_cursor(rx) == channel_log(*tx).len(),
        listens_to(rx, *tx),
{
    tx.subscribe()
}

/// What an attempt to receive gave.
#[derive(Debug, Clone, PartialEq, Eq)]
pub enum Received {
    /// The next value of the stream.
    Value(Msg<String>),
    /// The receiver has read all that the stream accepted.
    Empty,
    /// The receiver fell behind by more than the stream holds: so many of
    /// the oldest values are lost to it, and it now stands at the oldest
    /// that is left.
    Lagged(u64),
    /// The stream has no sender any more.
    Closed,
}

pub enum ReceivedView {
    Value(Msg<Seq<char>>),
    Empty,
    Lagged(nat),
    Closed,
}

impl View for Received {
    type V = ReceivedView;

    open spec fn view(&self) -> ReceivedView {
        match self {
            Received::Value(msg) => ReceivedView::Value(msg@),
            Received::Empty => ReceivedView::Empty,
            Received::Lagged(n) => ReceivedView::Lagged(*n as nat),
            Received::Closed => ReceivedView::Closed,
        }
    }
}

/// What a receiver that stands at `cursor` receives from a stream that has
/// accepted `log` and still has its sender, and where the receiver stands
/// afterwards.
///
/// A stream holds its newest [`MAX_PUB_SUB_CONNECTIONS`] values. A receiver
/// that is further behind than that is told how many values it lost and is
/// moved to the oldest value that is left; otherwise it gets the value at
/// its cursor and moves on by one; at the end of the log it gets nothing.
pub open spec fn receive_spec(log: Seq<Msg<Seq<char>>>, cursor: nat) -> (ReceivedView, nat) {
    let behind = log.len() - cursor;
    if behind <= 0 {
        (ReceivedView::Empty, cursor)
    } else if behind > MAX_PUB_SUB_CONNECTIONS {
        (
            ReceivedView::Lagged((behind - MAX_PUB_SUB_CONNECTIONS) as nat),
            (log.len() - MAX_PUB_SUB_CONNECTIONS) as nat,
        )
    } else {
        (ReceivedView::Value(log[cursor as int]), cursor + 1)
    }
}

/// `Receiver::try_recv`, for a receiver of the stream of a sender that the
/// caller holds: what comes out, and where the receiver stands afterwards,
/// is then a function of what the stream has accepted and of where the
/// receiver stood, the one that [`receive_spec`] writes down. (While the
/// sender is held the stream is not closed, and nothing is sent meanwhile.)
#[verifier::external_body]
fn try_receive(
    tx: &tokio::sync::broadcast::Sender<Msg<String>>,
    rx: &mut tokio::sync::broadcast::Receiver<Msg<String>>,
) -> (r: Received)
    requires
        listens_to(*old(rx), *tx),
    ensures
        (r@, receiver_cursor(*final(rx))) == receive_spec(
            channel_log(*tx),
            receiver_cursor(*old(rx)),
        ),
        listens_to(*final(rx), *tx),
{
    match rx.try_recv() {
        Ok(msg) => Received::Value(msg),
        Err(tokio::sync::broadcast::error::TryRecvError::Empty) => Received::Empty,
        Err(tokio::sync::broadcast::error::TryRecvError::Lagged(n)) => Received::Lagged(n),
        Err(tokio::sync::broadcast::error::TryRecvError::Closed) => Received::Closed,
    }
}

/// One stream of the registry.
pub struct Stream {
    channel: Channel,
    tx: tokio::sync::broadcast::Sender<Msg<String>>,
    /// Keeps the stream open while no subscriber listens.
    rx: tokio::sync::broadcast::Receiver<Msg<String>>,
}

/// The keys of a run of streams, in order.
pub closed spec fn keys(streams: Seq<Stream>) -> Seq<(u32, Seq<char>)> {
    streams.map_values(|s: Stream| s.channel@)
}

/// No key occurs twice, and every stream is kept open by its own receiver.
spec fn distinct(streams: Seq<Stream>) -> bool {
    &&& forall|i: int, j: int|
        0 <= i < j < streams.len() ==> (#[trigger] streams[i]).channel@ != (
        #[trigger] streams[j]).channel@
    &&& forall|i: int| 0 <= i < streams.len() ==> listens_to((#[trigger] streams[i]).rx, streams[i].tx)
}

/// The values that the stream of `channel` has accepted, oldest first.
spec fn log_of(streams: Seq<Stream>, channel: (u32, Seq<char>)) -> Seq<Msg<Seq<char>>> {
    channel_log(streams[keys(streams).index_of(channel)].tx)
}

/// The number of subscribers that the newest value of a stream reached:
/// the receivers that the stream had then, less the one that the registry
/// keeps.
spec fn reach(stream: Stream) -> nat {
    (newest_reach(stream.tx) - 1) as nat
}

/// The number of subscribers that the newest value of the stream of
/// `channel` reached.
spec fn reach_of(streams: Seq<Stream>, channel: (u32, Seq<char>)) -> nat {
    reach(streams[keys(streams).index_of(channel)])
}

/// The subscribers that the newest values of the first `n` streams reached,
/// all together.
spec fn reach_sum(streams: Seq<Stream>, n: int) -> nat
    decreases n,
{
    if n <= 0 {
        0
    } else {
        reach_sum(streams, n - 1) + reach(streams[n - 1])
    }
}

proof fn lemma_reach_sum_of_equal_streams(a: Seq<Stream>, b: Seq<Stream>, n: int)
    requires
        0 <= n <= a.len(),
        n <= b.len(),
        forall|k: int| 0 <= k < n ==> a[k] == b[k],
    ensures
        reach_sum(a, n) == reach_sum(b, n),
    decreases n,
{
    if n > 0 {
        lemma_reach_sum_of_equal_streams(a, b, n - 1);
    }
}

/// Whether `rx` is a receiver of the stream of `channel`.
spec fn hears_in(
    streams: Seq<Stream>,
    channel: (u32, Seq<char>),
    rx: tokio::sync::broadcast::Receiver<Msg<String>>,
) -> bool {
    keys(streams).contains(channel) && listens_to(
        rx,
        streams[keys(streams).index_of(channel)].tx,
    )
}

proof fn lemma_log_at(streams: Seq<Stream>, i: int)
    requires
        distinct(streams),
        0 <= i < streams.len(),
    ensures
        keys(streams).contains(streams[i].channel@),
        keys(streams).index_of(streams[i].channel@) == i,
        log_of(streams, streams[i].channel@) == channel_log(streams[i].tx),
{
    let ks = keys(streams);
    let c = streams[i].channel@;
    assert(ks[i] == c);
    let j = ks.index_of(c);
    assert(0 <= j < ks.len() && ks[j] == c);
    assert(streams[j].channel@ == c);
}

proof fn lemma_keys_distinct(streams: Seq<Stream>)
    requires
        distinct(streams),
    ensures
        keys(streams).no_duplicates(),
{
    let ks = keys(streams);
    assert forall|i: int, j: int| 0 <= i < ks.len() && 0 <= j < ks.len() && i != j implies ks[i]
        != ks[j] by {
        assert(ks[i] == streams[i].channel@ && ks[j] == streams[j].channel@);
    }
}

proof fn lemma_key_index(streams: Seq<Stream>, channel: (u32, Seq<char>))
    requires
        keys(streams).contains(channel),
    ensures
        0 <= keys(streams).index_of(channel) < streams.len(),
        streams[keys(streams).index_of(channel)].channel@ == channel,
{
    let ks = keys(streams);
    let j = ks.index_of(channel);
    assert(0 <= j < ks.len() && ks[j] == channel);
}

/// A copy of a message.
pub fn copy_msg(msg: &Msg<String>) -> (r: Msg<String>)
    ensures
        r@ == msg@,
{
    match msg {
        Msg::Ping => Msg::Ping,
        Msg::Pong => Msg::Pong,
        Msg::Op(text) => Msg::Op(text.clone()),
    }
}

/// Where the stream of `channel` stands among the streams.
fn find(streams: &Vec<Stream>, channel: &Channel) -> (r: Option<usize>)
    requires
        distinct(streams@),
    ensures
        match r {
            Some(i) => i < streams.len() && streams[i as int].channel@ == channel@ && keys(
                streams@,
            ).contains(channel@) && keys(streams@).index_of(channel@) == i,
            None => !keys(streams@).contains(channel@),
        },
{
    let mut i: usize = 0;
    while i < streams.len()
        invariant
            i <= streams.len(),
            distinct(streams@),
            forall|k: int| 0 <= k < i ==> (#[trigger] streams[k]).channel@ != channel@,
        decreases streams.len() - i,
    {
        if streams[i].channel.same(channel) {
            proof {
                lemma_log_at(streams@, i as int);
            }
            return Some(i);
        }
        i += 1;
    }
    proof {
        if keys(streams@).contains(channel@) {
            lemma_key_index(streams@, channel@);
        }
    }
    None
}

/// The number of subscribers among the receivers of a stream: all but the
/// one that the registry keeps.
pub fn subscribers_among(receivers: usize) -> (n: usize)
    requires
        receivers >= 1,
    ensures
        n == receivers - 1,
{
    receivers - 1
}

/// Hands `msg` to the stream at `i`, and returns the number of subscribers
/// that it reached.
fn publish_at(streams: &mut Vec<Stream>, i: usize, msg: Msg<String>) -> (n: usize)
    requires
        distinct(old(streams)@),
        i < old(streams).len(),
    ensures
        distinct(final(streams)@),
        final(streams).len() == old(streams).len(),
        keys(final(streams)@) == keys(old(streams)@),
        forall|k: int|
            0 <= k < old(streams).len() && k != i ==> #[trigger] final(streams)[k] == old(
                streams,
            )[k],
        n == reach(final(streams)[i as int]),
        channel_log(final(streams)[i as int].tx) == channel_log(old(streams)[i as int].tx).push(
            msg@,
        ),
        forall|k: int, rx: tokio::sync::broadcast::Receiver<Msg<String>>|
            0 <= k < old(streams).len() && listens_to(rx, old(streams)[k].tx)
                ==> #[trigger] listens_to(rx, final(streams)[k].tx),
{
    let stream = streams.remove(i);
    let Stream { channel, mut tx, rx } = stream;
    let receivers = send(&mut tx, &rx, msg);
    streams.insert(i, Stream { channel, tx, rx });
    assert(keys(streams@) =~= keys(old(streams)@));
    subscribers_among(receivers)
}

/// The streams of a registry, in the order in which they were created.
pub struct State {
    streams: Vec<Stream>,
}

impl State {
    #[verifier::type_invariant]
    spec fn well_formed(&self) -> bool {
        distinct(self.streams@)
    }

    /// The keys of the streams, in the order in which they were created.
    pub closed spec fn channels(&self) -> Seq<(u32, Seq<char>)> {
        keys(self.streams@)
    }

    /// The values that the stream of `channel` has accepted, oldest first.
    pub closed spec fn log(&self, channel: (u32, Seq<char>)) -> Seq<Msg<Seq<char>>> {
        log_of(self.streams@, channel)
    }

    /// The number of streams.
    pub fn len(&self) -> (r: usize)
        ensures
            r == self.channels().len(),
    {
        self.streams.len()
    }

    /// Whether `channel` has a stream.
    pub fn contains(&self, channel: &Channel) -> (r: bool)
        ensures
            r == self.channels().contains(channel@),
            self.channels().no_duplicates(),
    {
        proof {
            use_type_invariant(self);
            lemma_keys_distinct(self.streams@);
        }
        find(&self.streams, channel).is_some()
    }
}

/// Mathematical model of the registry: the keys of its streams, in the order
/// in which the streams were created, and for each key the values that its
/// stream has accepted, oldest first.
pub struct Registry {
    pub channels: Seq<(u32, Seq<char>)>,
    pub logs: Map<(u32, Seq<char>), Seq<Msg<Seq<char>>>>,
}

impl Registry {
    /// The registry without streams.
    pub open spec fn empty() -> Registry {
        Registry { channels: Seq::empty(), logs: Map::empty() }
    }

    /// No key occurs twice, and the keys with a log are the keys of the
    /// streams.
    pub open spec fn wf(self) -> bool {
        &&& self.channels.no_duplicates()
        &&& forall|c: (u32, Seq<char>)| self.logs.dom().contains(c) <==> self.channels.contains(c)
    }

    /// The registry after a subscription to `channel`: a stream is created
    /// where there is none, and nothing else changes.
    pub open spec fn subscribed(self, channel: (u32, Seq<char>)) -> Registry {
        if self.channels.contains(channel) {
            self
        } else {
            Registry {
                channels: self.channels.push(channel),
                logs: self.logs.insert(channel, Seq::empty()),
            }
        }
    }

    /// The registry after `msg` was published to `channel`: the value is
    /// the newest of that stream where there is one, and nothing else
    /// changes.
    pub open spec fn published(self, channel: (u32, Seq<char>), msg: Msg<Seq<char>>) -> Registry {
        if self.channels.contains(channel) {
            Registry { logs: self.logs.insert(channel, self.logs[channel].push(msg)), ..self }
        } else {
            self
        }
    }

    /// The registry after each of `msgs` was published to `channel`, from
    /// first to last.
    pub open spec fn published_each(
        self,
        channel: (u32, Seq<char>),
        msgs: Seq<Msg<Seq<char>>>,
    ) -> Registry
        decreases msgs.len(),
    {
        if msgs.len() == 0 {
            self
        } else {
            self.published_each(channel, msgs.drop_last()).published(channel, msgs.last())
        }
    }

    /// The registry after `msg` was published to every stream.
    pub open spec fn published_all(self, msg: Msg<Seq<char>>) -> Registry {
        Registry {
            logs: Map::new(
                |c: (u32, Seq<char>)| self.logs.dom().contains(c),
                |c: (u32, Seq<char>)| self.logs[c].push(msg),
            ),
            ..self
        }
    }

    /// A value that is published to a channel without a stream reaches
    /// nobody and leaves no trace: the registry is as it was.
    pub proof fn lemma_publish_without_stream(
        self,
        channel: (u32, Seq<char>),
        msg: Msg<Seq<char>>,
    )
        requires
            !self.channels.contains(channel),
        ensures
            self.published(channel, msg) == self,
    {
    }

    /// Publishing keeps the streams and changes the log of one stream at
    /// most; subscribing changes no log that was there.
    pub proof fn lemma_other_streams_untouched(
        self,
        channel: (u32, Seq<char>),
        msg: Msg<Seq<char>>,
        other: (u32, Seq<char>),
    )
        requires
            self.wf(),
            other != channel,
            self.channels.contains(other),
        ensures
            self.published(channel, msg).wf(),
            self.subscribed(channel).wf(),
            self.published(channel, msg).channels == self.channels,
            self.published(channel, msg).logs[other] == self.logs[other],
            self.subscribed(channel).logs[other] == self.logs[other],
    {
        let added = self.subscribed(channel);
        if !self.channels.contains(channel) {
            assert forall|i: int, j: int|
                0 <= i < added.channels.len() && 0 <= j < added.channels.len() && i != j implies added.channels[i]
                != added.channels[j] by {
                if i < self.channels.len() {
                    assert(self.channels.contains(self.channels[i]));
                }
                if j < self.channels.len() {
                    assert(self.channels.contains(self.channels[j]));
                }
            }
            assert forall|c: (u32, Seq<char>)|
                added.logs.dom().contains(c) <==> added.channels.contains(c) by {
                if added.channels.contains(c) {
                    let i = choose|i: int| 0 <= i < added.channels.len() && added.channels[i] == c;
                    if i < self.channels.len() {
                        assert(self.channels.contains(c));
                    }
                }
                if self.channels.contains(c) {
                    let i = choose|i: int| 0 <= i < self.channels.len() && self.channels[i] == c;
                    assert(added.channels[i] == c);
                }
                if c == channel {
                    assert(added.channels[self.channels.len() as int] == c);
                }
            }
        }
    }

    /// A subscriber that comes after a run of values was published to its
    /// channel stands behind them all: where the channel had a stream, the
    /// stream holds them after what it held before, and the subscriber
    /// reads from the end; where it had none, the values were dropped and
    /// the subscriber's stream starts empty. Either way the subscriber, who
    /// stands at the end of its stream, receives nothing at first.
    pub proof fn lemma_late_subscriber(self, channel: (u32, Seq<char>), msgs: Seq<Msg<Seq<char>>>)
        requires
            self.wf(),
        ensures
            ({
                let after = self.published_each(channel, msgs).subscribed(channel);
                &&& after.channels.contains(channel)
                &&& self.channels.contains(channel) ==> after.logs[channel] == self.logs[channel]
                    + msgs
                &&& !self.channels.contains(channel) ==> after.logs[channel] == Seq::<
                    Msg<Seq<char>>,
                >::empty()
                &&& receive_spec(after.logs[channel], after.logs[channel].len()) == (
                    ReceivedView::Empty,
                    after.logs[channel].len(),
                )
            }),
        decreases msgs.len(),
    {
        let sent = self.published_each(channel, msgs);
        if msgs.len() == 0 {
            assert(self.logs[channel] + msgs =~= self.logs[channel]);
        } else {
            self.lemma_late_subscriber(channel, msgs.drop_last());
            self.lemma_published_each_keeps_channels(channel, msgs.drop_last());
            let before = self.published_each(channel, msgs.drop_last());
            if self.channels.contains(channel) {
                assert(self.logs[channel] + msgs =~= (self.logs[channel] + msgs.drop_last()).push(
                    msgs.last(),
                ));
            }
        }
        self.lemma_published_each_keeps_channels(channel, msgs);
        if !sent.channels.contains(channel) {
            assert(sent.subscribed(channel).channels[sent.channels.len() as int] == channel);
        }
    }

    /// Publishing to one channel keeps the keys of the streams.
    pub proof fn lemma_published_each_keeps_channels(
        self,
        channel: (u32, Seq<char>),
        msgs: Seq<Msg<Seq<char>>>,
    )
        ensures
            self.published_each(channel, msgs).channels == self.channels,
            !self.channels.contains(channel) ==> self.published_each(channel, msgs) == self,
        decreases msgs.len(),
    {
        if msgs.len() > 0 {
            self.lemma_published_each_keeps_channels(channel, msgs.drop_last());
        }
    }
}

/// The registry of broadcast streams. Its model is a [`Registry`].
pub struct PubSubDb {
    state: State,
}

impl PubSubDb {
    /// The keys of the streams, in the order in which they were created.
    closed spec fn channels(&self) -> Seq<(u32, Seq<char>)> {
        self.state.channels()
    }

    /// The values that the stream of `channel` has accepted, oldest first.
    closed spec fn log(&self, channel: (u32, Seq<char>)) -> Seq<Msg<Seq<char>>> {
        self.state.log(channel)
    }

    /// Whether `rx` is a receiver of the stream of `channel`.
    pub closed spec fn hears(
        &self,
        channel: (u32, Seq<char>),
        rx: tokio::sync::broadcast::Receiver<Msg<String>>,
    ) -> bool {
        hears_in(self.state.streams@, channel, rx)
    }

    /// Whether every receiver of a stream of `before` is a receiver of the
    /// same stream of `self`.
    pub open spec fn keeps_receivers_of(&self, before: &PubSubDb) -> bool {
        forall|c: (u32, Seq<char>), rx: tokio::sync::broadcast::Receiver<Msg<String>>|
            before.hears(c, rx) ==> #[trigger] self.hears(c, rx)
    }

    /// The number of subscribers that the newest value of the stream of
    /// `channel` reached: the receivers that the stream had when it
    /// accepted the value, less the one that the registry keeps. It says
    /// nothing of a stream that has accepted no value.
    pub closed spec fn reached(&self, channel: (u32, Seq<char>)) -> nat {
        reach_of(self.state.streams@, channel)
    }

    /// The subscribers that the newest values of the first `n` streams
    /// reached, all together.
    pub open spec fn reached_by_first(&self, n: int) -> nat
        decreases n,
    {
        if n <= 0 {
            0
        } else {
            self.reached_by_first(n - 1) + self.reached(self.model().channels[n - 1])
        }
    }

    /// The subscribers that the newest values of all streams reached, all
    /// together.
    pub open spec fn reached_in_all(&self) -> nat {
        self.reached_by_first(self.model().channels.len() as int)
    }

    /// Whether the newest value of every stream of `before` but that of
    /// `channel` reached as many subscribers in `self` as in `before`.
    pub open spec fn keeps_reach_but_of(&self, before: &PubSubDb, channel: (u32, Seq<char>)) -> bool {
        forall|c: (u32, Seq<char>)|
            c != channel && before.model().channels.contains(c) ==> #[trigger] self.reached(c)
                == before.reached(c)
    }

    /// The registry that this value stands for.
    pub closed spec fn model(&self) -> Registry {
        Registry {
            channels: self.channels(),
            logs: Map::new(
                |c: (u32, Seq<char>)| self.channels().contains(c),
                |c: (u32, Seq<char>)| self.log(c),
            ),
        }
    }

    /// A registry without streams.
    pub fn new() -> (r: PubSubDb)
        ensures
            r.model() == Registry::empty(),
    {
        let r = PubSubDb { state: State { streams: Vec::new() } };
        assert(r.channels() =~= Seq::empty());
        assert(r.model().logs =~= Map::empty());
        r
    }

    /// The number of streams.
    pub fn len(&self) -> (r: usize)
        ensures
            r == self.model().channels.len(),
    {
        self.state.len()
    }

    /// Whether `channel` has a stream.
    pub fn contains(&self, channel: &Channel) -> (r: bool)
        ensures
            r == self.model().channels.contains(channel@),
            self.model().wf(),
    {
        self.state.contains(channel)
    }

    /// A new receiver for `channel`, whose stream is created if there is
    /// none.
    ///
    /// The receiver stands at the end of the stream: it reads what is
    /// published from now on and nothing that was published before.
    pub fn subscribe(&mut self, channel: Channel) -> (rx: tokio::sync::broadcast::Receiver<
        Msg<String>,
    >)
        ensures
            final(self).model() == old(self).model().subscribed(channel@),
            receiver_cursor(rx) == final(self).model().logs[channel@].len(),
            final(self).hears(channel@, rx),
            final(self).keeps_receivers_of(old(self)),
            final(self).keeps_reach_but_of(old(self), channel@),
            old(self).model().channels.contains(channel@) ==> final(self).reached(channel@) == old(
                self,
            ).reached(channel@),
    {
        proof {
            use_type_invariant(&self.state);
        }
        let mut streams: Vec<Stream> = Vec::new();
        core::mem::swap(&mut self.state.streams, &mut streams);
        let ghost before = streams@;
        let out = match find(&streams, &channel) {
            Some(i) => {
                let kept = attach(&streams[i].tx);
                streams[i].rx = kept;
                proof {
                    assert(keys(streams@) =~= keys(before));
                    assert forall|c: (u32, Seq<char>)| keys(before).contains(c) implies log_of(
                        streams@,
                        c,
                    ) == log_of(before, c) by {
                        lemma_key_index(before, c);
                    }
                    assert(forall|k: int| 0 <= k < before.len() ==> streams[k].tx == before[k].tx);
                }
                attach(&streams[i].tx)
            },
            None => {
                let (tx, rx) = open_stream();
                let out = attach(&tx);
                streams.push(Stream { channel, tx, rx });
                proof {
                    let after = streams@;
                    assert(keys(after) =~= keys(before).push(channel@));
                    assert forall|i: int, j: int| 0 <= i < j < after.len() implies (
                    #[trigger] after[i]).channel@ != (#[trigger] after[j]).channel@ by {
                        if j == before.len() {
                            assert(keys(before)[i] == before[i].channel@);
                        }
                    }
                    lemma_log_at(after, before.len() as int);
                    assert forall|c: (u32, Seq<char>)| keys(before).contains(c) implies log_of(
                        after,
                        c,
                    ) == log_of(before, c) by {
                        lemma_key_index(before, c);
                        let k = keys(before).index_of(c);
                        lemma_log_at(after, k);
                    }
                    assert(forall|k: int| 0 <= k < before.len() ==> after[k].tx == before[k].tx);
                }
                out
            },
        };
        let ghost after = streams@;
        core::mem::swap(&mut self.state.streams, &mut streams);
        proof {
            let expected = old(self).model().subscribed(channel@);
            if keys(before).contains(channel@) {
                assert(self.model().logs =~= expected.logs);
            } else {
                assert(keys(after)[before.len() as int] == channel@);
                assert forall|c: (u32, Seq<char>)|
                    keys(after).contains(c) <==> (keys(before).contains(c) || c == channel@) by {
                    if keys(after).contains(c) {
                        let i = choose|i: int| 0 <= i < keys(after).len() && keys(after)[i] == c;
                        if i < before.len() {
                            assert(keys(before)[i] == c);
                        }
                    }
                    if keys(before).contains(c) {
                        let i = choose|i: int| 0 <= i < keys(before).len() && keys(before)[i] == c;
                        assert(keys(after)[i] == c);
                    }
                }
                assert(self.model().logs =~= expected.logs);
            }
            lemma_key_index(after, channel@);
            assert forall|c: (u32, Seq<char>), r: tokio::sync::broadcast::Receiver<Msg<String>>|
                hears_in(before, c, r) implies #[trigger] hears_in(after, c, r) by {
                lemma_key_index(before, c);
                let k = keys(before).index_of(c);
                assert(keys(after)[k] == c);
                lemma_log_at(after, k);
            }
        }
        out
    }

    /// Publishes `msg` to every stream, and returns the number of
    /// subscribers reached, all streams together (`usize::MAX` where it is
    /// more).
    ///
    /// Every stream accepts the value as its newest. The receiver that the
    /// registry keeps of each stream is no subscriber and is not counted.
    pub fn publish_all(&mut self, msg: Msg<String>) -> (total: usize)
        ensures
            final(self).model() == old(self).model().published_all(msg@),
            total == (if final(self).reached_in_all() <= usize::MAX {
                final(self).reached_in_all()
            } else {
                usize::MAX as nat
            }),
            final(self).keeps_receivers_of(old(self)),
    {
        proof {
            use_type_invariant(&self.state);
        }
        let mut streams: Vec<Stream> = Vec::new();
        core::mem::swap(&mut self.state.streams, &mut streams);
        let ghost before = streams@;
        let mut total: usize = 0;
        let mut i: usize = 0;
        while i < streams.len()
            invariant
                i <= streams.len(),
                streams.len() == before.len(),
                distinct(before),
                distinct(streams@),
                keys(streams@) == keys(before),
                forall|k: int|
                    i <= k < before.len() ==> channel_log((#[trigger] streams[k]).tx)
                        == channel_log(before[k].tx),
                forall|k: int|
                    0 <= k < i ==> channel_log((#[trigger] streams[k]).tx) == channel_log(
                        before[k].tx,
                    ).push(msg@),
                forall|k: int, rx: tokio::sync::broadcast::Receiver<Msg<String>>|
                    0 <= k < before.len() && listens_to(rx, before[k].tx) ==> #[trigger] listens_to(
                        rx,
                        streams[k].tx,
                    ),
                total == (if reach_sum(streams@, i as int) <= usize::MAX {
                    reach_sum(streams@, i as int)
                } else {
                    usize::MAX as nat
                }),
            decreases streams.len() - i,
        {
            let ghost entering = streams@;
            let n = publish_at(&mut streams, i, copy_msg(&msg));
            proof {
                lemma_reach_sum_of_equal_streams(entering, streams@, i as int);
            }
            total = if n > usize::MAX - total {
                usize::MAX
            } else {
                total + n
            };
            i += 1;
        }
        proof {
            assert forall|c: (u32, Seq<char>)| keys(before).contains(c) implies log_of(
                streams@,
                c,
            ) == log_of(before, c).push(msg@) by {
                lemma_key_index(before, c);
            }
        }
        let ghost after = streams@;
        core::mem::swap(&mut self.state.streams, &mut streams);
        proof {
            assert(self.model().logs =~= old(self).model().published_all(msg@).logs);
            assert forall|c: (u32, Seq<char>), r: tokio::sync::broadcast::Receiver<Msg<String>>|
                hears_in(before, c, r) implies #[trigger] hears_in(after, c, r) by {
                lemma_key_index(before, c);
            }
            self.lemma_reached_by_first(after.len() as int);
        }
        total
    }

    /// Publishes `msg` to the stream of `channel`, and returns the number of
    /// subscribers reached.
    ///
    /// A channel without a stream has no subscribers: the result is zero,
    /// the value is dropped and the registry stays as it was. In a channel
    /// with a stream the value becomes the newest of the stream, and the
    /// result is the number of subscribers that it reached: the receivers
    /// that the stream has, less the one that the registry keeps, which is
    /// no subscriber. That is zero where every subscriber has let go of
    /// its receiver. No other stream changes. The publisher never waits.
    pub fn publish(&mut self, channel: Channel, msg: Msg<String>) -> (n: usize)
        ensures
            final(self).model() == old(self).model().published(channel@, msg@),
            !old(self).model().channels.contains(channel@) ==> n == 0,
            old(self).model().channels.contains(channel@) ==> n == final(self).reached(channel@),
            final(self).keeps_reach_but_of(old(self), channel@),
            final(self).keeps_receivers_of(old(self)),
    {
        proof {
            use_type_invariant(&self.state);
        }
        let mut streams: Vec<Stream> = Vec::new();
        core::mem::swap(&mut self.state.streams, &mut streams);
        let ghost before = streams@;
        let n = match find(&streams, &channel) {
            None => 0,
            Some(i) => {
                let n = publish_at(&mut streams, i, msg);
                proof {
                    assert forall|c: (u32, Seq<char>)|
                        c != channel@ && keys(before).contains(c) implies log_of(streams@, c)
                        == log_of(before, c) && reach_of(streams@, c) == reach_of(before, c) by {
                        lemma_key_index(before, c);
                    }
                }
                n
            },
        };
        let ghost after = streams@;
        core::mem::swap(&mut self.state.streams, &mut streams);
        proof {
            assert(self.model().logs =~= old(self).model().published(channel@, msg@).logs);
            assert forall|c: (u32, Seq<char>), r: tokio::sync::broadcast::Receiver<Msg<String>>|
                hears_in(before, c, r) implies #[trigger] hears_in(after, c, r) by {
                lemma_key_index(before, c);
            }
        }
        n
    }

    /// The sum over the first `n` keys is the sum over the first `n`
    /// streams.
    proof fn lemma_reached_by_first(&self, n: int)
        requires
            distinct(self.state.streams@),
            0 <= n <= self.state.streams.len(),
        ensures
            self.reached_by_first(n) == reach_sum(self.state.streams@, n),
        decreases n,
    {
        if n > 0 {
            self.lemma_reached_by_first(n - 1);
            lemma_log_at(self.state.streams@, n - 1);
            assert(self.model().channels[n - 1] == self.state.streams@[n - 1].channel@);
        }
    }

    /// A new receiver for a channel that has a stream, standing at the end
    /// of the stream.
    pub fn listen(&self, channel: Channel) -> (rx: tokio::sync::broadcast::Receiver<Msg<String>>)
        requires
            self.model().channels.contains(channel@),
        ensures
            receiver_cursor(rx) == self.model().logs[channel@].len(),
            self.hears(channel@, rx),
    {
        proof {
            use_type_invariant(&self.state);
        }
        let i = find(&self.state.streams, &channel).unwrap();
        attach(&self.state.streams[i].tx)
    }

    /// Receives for a receiver of the stream of `channel`, without waiting:
    /// the value at the receiver's place in the stream, nothing at the end
    /// of the stream, or the number of values that the receiver lost by
    /// falling behind; the receiver moves on accordingly. The registry is
    /// not changed.
    pub fn try_recv(
        &self,
        channel: &Channel,
        rx: &mut tokio::sync::broadcast::Receiver<Msg<String>>,
    ) -> (r: Received)
        requires
            self.hears(channel@, *old(rx)),
        ensures
            (r@, receiver_cursor(*final(rx))) == receive_spec(
                self.model().logs[channel@],
                receiver_cursor(*old(rx)),
            ),
            self.hears(channel@, *final(rx)),
    {
        proof {
            use_type_invariant(&self.state);
        }
        let i = find(&self.state.streams, channel).unwrap();
        try_receive(&self.state.streams[i].tx, rx)
    }
}

/// A receiver that stands within reach of the end of a stream receives the
/// values from its place on, each once and in the order in which they were
/// accepted, and then nothing.
pub proof fn lemma_received_in_order(log: Seq<Msg<Seq<char>>>, cursor: nat)
    requires
        cursor <= log.len() <= cursor + MAX_PUB_SUB_CONNECTIONS,
    ensures
        forall|i: nat|
            cursor <= i < log.len() ==> #[trigger] receive_spec(log, i) == (
                ReceivedView::Value(log[i as int]),
                i + 1,
            ),
        receive_spec(log, log.len()) == (ReceivedView::Empty, log.len()),
{
}

/// A subscriber that never reads loses the oldest value to the value that
/// is published when its stream is full: it is told that it lost one, and
/// from then on receives the newest [`MAX_PUB_SUB_CONNECTIONS`] values and
/// no other.
pub proof fn lemma_overflow_drops_the_oldest(log: Seq<Msg<Seq<char>>>, cursor: nat)
    requires
        log.len() == cursor + MAX_PUB_SUB_CONNECTIONS + 1,
    ensures
        receive_spec(log, cursor) == (ReceivedView::Lagged(1), cursor + 1),
        forall|i: nat|
            cursor + 1 <= i < log.len() ==> #[trigger] receive_spec(log, i) == (
                ReceivedView::Value(log[i as int]),
                i + 1,
            ),
        receive_spec(log, log.len()) == (ReceivedView::Empty, log.len()),
{
}

/// However far a receiver is behind, what it receives next is none of the
/// values that the stream holds no longer.
pub proof fn lemma_lost_values_stay_lost(log: Seq<Msg<Seq<char>>>, cursor: nat)
    requires
        cursor <= log.len(),
    ensures
        receive_spec(log, cursor).1 >= cursor,
        receive_spec(log, cursor).1 >= log.len() - MAX_PUB_SUB_CONNECTIONS,
        receive_spec(log, cursor).1 <= log.len(),
        receive_spec(log, cursor).0 matches ReceivedView::Value(msg) ==> log.len() - cursor
            <= MAX_PUB_SUB_CONNECTIONS && msg == log[cursor as int],
        receive_spec(log, cursor).0 matches ReceivedView::Lagged(n) ==> n == log.len() - cursor
            - MAX_PUB_SUB_CONNECTIONS,
{
}

impl Registry {
    /// Every subscriber that stands at the end of a stream receives a value
    /// that is then published to the stream, once, and then nothing: the
    /// value is not lost to any of them and comes to none of them twice.
    pub proof fn lemma_every_subscriber_receives_once(
        self,
        channel: (u32, Seq<char>),
        msg: Msg<Seq<char>>,
    )
        requires
            self.channels.contains(channel),
        ensures
            ({
                let before = self.logs[channel];
                let after = self.published(channel, msg).logs[channel];
                &&& after == before.push(msg)
                &&& receive_spec(after, before.len()) == (ReceivedView::Value(msg), before.len() + 1)
                &&& receive_spec(after, before.len() + 1) == (ReceivedView::Empty, before.len() + 1)
            }),
    {
    }

    /// Two values that are published to a stream, by whomever, come to
    /// every subscriber that stands at its end in the order in which the
    /// stream accepted them.
    pub proof fn lemma_two_publishers(
        self,
        channel: (u32, Seq<char>),
        first: Msg<Seq<char>>,
        second: Msg<Seq<char>>,
    )
        requires
            self.channels.contains(channel),
        ensures
            ({
                let start = self.logs[channel].len();
                let after = self.published(channel, first).published(channel, second).logs[channel];
                &&& receive_spec(after, start) == (ReceivedView::Value(first), start + 1)
                &&& receive_spec(after, start + 1) == (ReceivedView::Value(second), start + 2)
                &&& receive_spec(after, start + 2) == (ReceivedView::Empty, start + 2)
            }),
    {
    }
}

} // verus!

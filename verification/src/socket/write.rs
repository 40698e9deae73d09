//! The outbound half: who is told of a change to a jam, and what they are
//! told.
//!
//! Every connection of a jam is registered; the jam's change feed is listened
//! to from the first registration to the last removal. On each notice of the
//! feed the queue is read anew for every registered connection.

use vstd::prelude::*;
use vstd::string::*;
use crate::protocol::{handle_error, Message, MessageView, Update, UpdateView};
use crate::song::{get_songs, queue};
use crate::store::{Store, StoreView, views};
use crate::table::{
    distinct_keys, lemma_filter_distinct, lemma_filter_ends, lemma_filter_step, lemma_lookup,
    lemma_lookup_first, lookup,
};
use crate::text::str_eq;
use crate::types::{Error, ErrorView, IdType, IdTypeView};

verus! {

/// The channel on which the store announces changes to one table of one jam.
pub open spec fn channel_name(jam_id: Seq<char>, table: Seq<char>) -> Seq<char> {
    jam_id + "_"@ + table
}

/// The channel to listen on for changes to one table of one jam.
pub fn create_listener(jam_id: &str, channel_name: &str) -> (channel: String)
    ensures
        channel@ == self::channel_name(jam_id@, channel_name@),
{
    let mut channel = jam_id.to_owned();
    channel.append("_");
    channel.append(channel_name);
    channel
}

/// A registered connection: its number, and the role it was resolved to.
#[derive(Debug)]
pub struct Subscriber {
    pub connection: u64,
    pub id: IdType,
}

pub struct SubscriberView {
    pub connection: u64,
    pub id: IdTypeView,
}

impl View for Subscriber {
    type V = SubscriberView;

    open spec fn view(&self) -> SubscriberView {
        SubscriberView { connection: self.connection, id: self.id@ }
    }
}

/// The connections that are told of changes, in the order in which they were
/// registered.
#[derive(Debug)]
pub struct Registry {
    pub subscribers: Vec<Subscriber>,
}

pub struct RegistryView {
    pub subscribers: Seq<SubscriberView>,
}

impl View for Registry {
    type V = RegistryView;

    open spec fn view(&self) -> RegistryView {
        RegistryView { subscribers: views(self.subscribers@) }
    }
}

/// The subscribers of the jam.
pub open spec fn subscribed_to(jam_id: Seq<char>) -> spec_fn(SubscriberView) -> bool {
    |s: SubscriberView| s.id.jam_id() == jam_id
}

/// Every subscriber but the connection.
pub open spec fn other_connection(connection: u64) -> spec_fn(SubscriberView) -> bool {
    |s: SubscriberView| s.connection != connection
}

impl RegistryView {
    pub open spec fn has_connection(self, connection: u64) -> bool {
        exists|i: int|
            0 <= i < self.subscribers.len() && (#[trigger] self.subscribers[i]).connection
                == connection
    }

    /// The jam of a registered connection.
    pub open spec fn jam_of(self, connection: u64) -> Option<Seq<char>> {
        lookup(
            self.subscribers.map_values(|s: SubscriberView| (s.connection, s.id.jam_id())),
            connection,
        )
    }

    /// The subscribers of the jam, in the order in which they were registered.
    pub open spec fn of_jam(self, jam_id: Seq<char>) -> Seq<SubscriberView> {
        self.subscribers.filter(subscribed_to(jam_id))
    }

    /// Whether the jam's change feed is listened to: it is while the jam has a
    /// subscriber.
    pub open spec fn listening(self, jam_id: Seq<char>) -> bool {
        self.of_jam(jam_id).len() > 0
    }

    /// The registry without the connection.
    pub open spec fn without(self, connection: u64) -> RegistryView {
        RegistryView { subscribers: self.subscribers.filter(other_connection(connection)) }
    }

    /// No connection is registered twice.
    pub open spec fn wf(self) -> bool {
        forall|i: int, j: int|
            0 <= i < j < self.subscribers.len() ==> (#[trigger] self.subscribers[i]).connection != (
            #[trigger] self.subscribers[j]).connection
    }

    /// Removing a connection leaves no connection registered twice.
    pub proof fn lemma_without(self, connection: u64)
        requires
            self.wf(),
        ensures
            self.without(connection).wf(),
            !self.without(connection).has_connection(connection),
    {
        let key = |s: SubscriberView| s.connection;
        let pred = other_connection(connection);
        let after = self.without(connection);
        assert(distinct_keys(self.subscribers, key)) by {
            assert forall|i: int, j: int| 0 <= i < j < self.subscribers.len() implies #[trigger] key(
                self.subscribers[i],
            ) != #[trigger] key(self.subscribers[j]) by {
                assert(self.subscribers[i].connection != self.subscribers[j].connection);
            }
        }
        lemma_filter_distinct(self.subscribers, key, pred);
        assert forall|i: int, j: int| 0 <= i < j < after.subscribers.len() implies (
        #[trigger] after.subscribers[i]).connection != (#[trigger] after.subscribers[j]).connection by {
            assert(key(after.subscribers[i]) != key(after.subscribers[j]));
        }
        if after.has_connection(connection) {
            let i = choose|i: int|
                0 <= i < after.subscribers.len() && (#[trigger] after.subscribers[i]).connection
                    == connection;
            self.subscribers.lemma_filter_pred(pred, i);
        }
    }
}

impl Registry {
    /// A registry of no connection.
    pub fn new() -> (r: Registry)
        ensures
            r@.subscribers.len() == 0,
            r@.wf(),
    {
        Registry { subscribers: Vec::new() }
    }

    /// Where the connection is registered, if it is.
    pub fn find(&self, connection: u64) -> (r: Option<usize>)
        ensures
            r is Some <==> self@.has_connection(connection),
            r matches Some(i) ==> i < self@.subscribers.len() && self@.subscribers[i as int].connection
                == connection,
            r matches Some(i) ==> forall|k: int|
                0 <= k < i ==> (#[trigger] self@.subscribers[k]).connection != connection,
    {
        let mut i: usize = 0;
        while i < self.subscribers.len()
            invariant
                i <= self.subscribers.len(),
                forall|k: int| 0 <= k < i ==> (#[trigger] self@.subscribers[k]).connection != connection,
            decreases self.subscribers.len() - i,
        {
            if self.subscribers[i].connection == connection {
                assert(self@.subscribers[i as int].connection == connection);
                return Some(i);
            }
            i = i + 1;
        }
        None
    }

    /// How many subscribers the jam has.
    pub fn count(&self, jam_id: &str) -> (n: usize)
        ensures
            n == self@.of_jam(jam_id@).len(),
    {
        let ghost rows = self@.subscribers;
        let ghost pred = subscribed_to(jam_id@);
        let mut n: usize = 0;
        let mut i: usize = 0;
        proof {
            lemma_filter_ends(rows, pred);
        }
        while i < self.subscribers.len()
            invariant
                i <= self.subscribers.len(),
                rows == self@.subscribers,
                pred == subscribed_to(jam_id@),
                n <= i,
                n == rows.take(i as int).filter(pred).len(),
            decreases self.subscribers.len() - i,
        {
            proof {
                lemma_filter_step(rows, pred, i as int);
                assert(rows[i as int].id == self.subscribers[i as int].id@);
            }
            if str_eq(self.subscribers[i].id.jam_id().as_str(), jam_id) {
                n = n + 1;
            }
            i = i + 1;
        }
        proof {
            lemma_filter_ends(rows, pred);
        }
        n
    }

    /// Registers a connection. The answer tells whether it is the first of its
    /// jam, so that the jam's change feed is to be listened to from now on. A
    /// connection that is registered already is not registered again.
    pub fn subscribe(&mut self, connection: u64, id: IdType) -> (first: Option<bool>)
        ensures
            match first {
                Some(first) => !old(self)@.has_connection(connection) && final(self)@.subscribers
                    == old(self)@.subscribers.push(SubscriberView { connection, id: id@ })
                    && first == !old(self)@.listening(id@.jam_id()),
                None => old(self)@.has_connection(connection) && final(self)@ == old(self)@,
            },
            old(self)@.wf() ==> final(self)@.wf(),
    {
        if self.find(connection).is_some() {
            return None;
        }
        let first = self.count(id.jam_id().as_str()) == 0;
        let ghost added = SubscriberView { connection, id: id@ };
        self.subscribers.push(Subscriber { connection, id });
        proof {
            assert(self@.subscribers =~= old(self)@.subscribers.push(added));
        }
        Some(first)
    }

    /// Removes a connection. The answer names the jam of the connection if it
    /// was the last of that jam, so that the jam's change feed is to be left.
    pub fn unsubscribe(&mut self, connection: u64) -> (last_of: Option<String>)
        ensures
            final(self)@ == old(self)@.without(connection),
            match last_of {
                Some(jam_id) => old(self)@.jam_of(connection) == Some(jam_id@)
                    && !final(self)@.listening(jam_id@),
                None => match old(self)@.jam_of(connection) {
                    Some(jam_id) => final(self)@.listening(jam_id),
                    None => true,
                },
            },
            old(self)@.wf() ==> final(self)@.wf() && !final(self)@.has_connection(connection),
    {
        let ghost pairs = self@.subscribers.map_values(
            |s: SubscriberView| (s.connection, s.id.jam_id()),
        );
        let jam_id: Option<String> = match self.find(connection) {
            Some(i) => {
                proof {
                    assert(pairs[i as int] == (
                        self@.subscribers[i as int].connection,
                        self@.subscribers[i as int].id.jam_id(),
                    ));
                    assert forall|k: int| 0 <= k < i implies (#[trigger] pairs[k]).0 != connection by {
                        assert(pairs[k].0 == self@.subscribers[k].connection);
                    }
                    lemma_lookup_first(pairs, connection, i as int);
                }
                Some(self.subscribers[i].id.jam_id().clone())
            },
            None => {
                proof {
                    lemma_lookup(pairs, connection);
                    if exists|i: int| 0 <= i < pairs.len() && (#[trigger] pairs[i]).0 == connection {
                        let i = choose|i: int| 0 <= i < pairs.len() && (#[trigger] pairs[i]).0 == connection;
                        assert(self@.subscribers[i].connection == connection);
                    }
                }
                None
            },
        };
        let ghost rows = self@.subscribers;
        let ghost pred = other_connection(connection);
        let mut kept: Vec<Subscriber> = Vec::new();
        let mut i: usize = 0;
        proof {
            lemma_filter_ends(rows, pred);
            assert(views(kept@) =~= Seq::<SubscriberView>::empty());
        }
        while i < self.subscribers.len()
            invariant
                i <= self.subscribers.len(),
                rows == self@.subscribers,
                pred == other_connection(connection),
                views(kept@) == rows.take(i as int).filter(pred),
            decreases self.subscribers.len() - i,
        {
            proof {
                lemma_filter_step(rows, pred, i as int);
                assert(rows[i as int] == self.subscribers[i as int]@);
            }
            if self.subscribers[i].connection != connection {
                let ghost before = views(kept@);
                let row = Subscriber {
                    connection: self.subscribers[i].connection,
                    id: self.subscribers[i].id.duplicate(),
                };
                kept.push(row);
                proof {
                    assert(views(kept@) =~= before.push(rows[i as int]));
                }
            }
            i = i + 1;
        }
        proof {
            lemma_filter_ends(rows, pred);
        }
        self.subscribers = kept;
        proof {
            if old(self)@.wf() {
                old(self)@.lemma_without(connection);
            }
        }
        match jam_id {
            Some(jam_id) => if self.count(jam_id.as_str()) == 0 {
                Some(jam_id)
            } else {
                None
            },
            None => None,
        }
    }
}

/// What the store's change feed brings.
#[derive(Clone, Copy, Debug, PartialEq, Eq, Structural)]
pub enum Notification {
    /// The songs of the jam have changed.
    Change,
    /// The feed was interrupted and is taken up again.
    Reset,
    /// The feed has failed for good.
    Failure,
}

/// A frame for one registered connection.
#[derive(Debug)]
pub struct Delivery {
    pub connection: u64,
    pub message: Message,
}

pub struct DeliveryView {
    pub connection: u64,
    pub message: MessageView,
}

impl View for Delivery {
    type V = DeliveryView;

    open spec fn view(&self) -> DeliveryView {
        DeliveryView { connection: self.connection, message: self.message@ }
    }
}

/// The text with which a client is told that the feed was interrupted.
pub open spec fn reset_text() -> Seq<char> {
    "pool disconnected reconnecting..."@
}

/// What a subscriber is sent on a notice: after a change the queue as they see
/// it, read anew; after an interruption an error that leaves their connection
/// usable.
pub open spec fn notice_for(store: StoreView, notification: Notification) -> spec_fn(
    SubscriberView,
) -> DeliveryView {
    |s: SubscriberView|
        DeliveryView {
            connection: s.connection,
            message: if notification == Notification::Reset {
                MessageView::Error { error: ErrorView::Database(reset_text()), fatal: false }
            } else {
                MessageView::Update(UpdateView::Songs(queue(store, s.id)))
            },
        }
}

/// What is sent on a notice of a jam's feed: one frame to each subscriber of
/// the jam, in the order in which they were registered; none when the feed has
/// failed.
pub open spec fn deliveries(
    store: StoreView,
    registry: RegistryView,
    jam_id: Seq<char>,
    notification: Notification,
) -> Seq<DeliveryView> {
    if notification == Notification::Failure {
        Seq::empty()
    } else {
        registry.of_jam(jam_id).map_values(notice_for(store, notification))
    }
}

/// One turn of the listener of a jam's change feed: the frames to enqueue, and
/// whether the feed is listened to further. An interruption does not end the
/// listening; only a failure of the feed does.
pub fn listen_songs(
    store: &Store,
    registry: &Registry,
    jam_id: &str,
    notification: Notification,
) -> (r: (Vec<Delivery>, bool))
    ensures
        views(r.0@) == deliveries(store@, registry@, jam_id@, notification),
        r.1 == (notification != Notification::Failure),
{
    let mut out: Vec<Delivery> = Vec::new();
    if notification == Notification::Failure {
        proof {
            assert(views(out@) =~= Seq::<DeliveryView>::empty());
        }
        return (out, false);
    }
    let ghost rows = registry@.subscribers;
    let ghost pred = subscribed_to(jam_id@);
    let ghost notice = notice_for(store@, notification);
    let mut i: usize = 0;
    proof {
        lemma_filter_ends(rows, pred);
        assert(views(out@) =~= rows.take(0).filter(pred).map_values(notice));
    }
    while i < registry.subscribers.len()
        invariant
            i <= registry.subscribers.len(),
            notification != Notification::Failure,
            rows == registry@.subscribers,
            pred == subscribed_to(jam_id@),
            notice == notice_for(store@, notification),
            views(out@) == rows.take(i as int).filter(pred).map_values(notice),
        decreases registry.subscribers.len() - i,
    {
        let subscriber = &registry.subscribers[i];
        proof {
            lemma_filter_step(rows, pred, i as int);
            assert(rows[i as int] == subscriber@);
        }
        if str_eq(subscriber.id.jam_id().as_str(), jam_id) {
            let message = if notification == Notification::Reset {
                handle_error(Error::Database("pool disconnected reconnecting...".to_owned()), false)
            } else {
                Message::Update(Update::Songs(get_songs(store, &subscriber.id)))
            };
            let ghost before = views(out@);
            let delivery = Delivery { connection: subscriber.connection, message };
            proof {
                assert(delivery@ == notice(subscriber@));
            }
            out.push(delivery);
            proof {
                let kept = rows.take(i as int).filter(pred);
                assert(views(out@) =~= before.push(notice(subscriber@)));
                assert(kept.push(subscriber@).map_values(notice) =~= kept.map_values(notice).push(
                    notice(subscriber@),
                ));
            }
        }
        i = i + 1;
    }
    proof {
        lemma_filter_ends(rows, pred);
    }
    (out, true)
}

/// Opens the outbound half of a connection: the connection is registered, and
/// where it is the first of its jam the answer is the channel on which the
/// jam's songs are announced, to be listened to from now on.
pub fn write(registry: &mut Registry, connection: u64, id: IdType) -> (listen: Option<String>)
    ensures
        old(registry)@.has_connection(connection) ==> listen is None && final(registry)@ == old(
            registry,
        )@,
        !old(registry)@.has_connection(connection) ==> final(registry)@.subscribers == old(
            registry,
        )@.subscribers.push(SubscriberView { connection, id: id@ }),
        match listen {
            Some(channel) => !old(registry)@.has_connection(connection) && !old(
                registry,
            )@.listening(id@.jam_id()) && channel@ == channel_name(id@.jam_id(), "songs"@),
            None => old(registry)@.has_connection(connection) || old(registry)@.listening(
                id@.jam_id(),
            ),
        },
        old(registry)@.wf() ==> final(registry)@.wf(),
{
    let channel = create_listener(id.jam_id().as_str(), "songs");
    match registry.subscribe(connection, id) {
        Some(true) => Some(channel),
        _ => None,
    }
}

} // verus!

//! The servers of a workload's ports, each published on a watch channel.
use crate::inbound::{InboundServer, InboundServerModel};
use crate::ports::PortSet;
use crate::table::{take_one_more, PortTable};
use crate::value::{Text, Value};
use tokio::sync::watch;
use vstd::prelude::*;

verus! {

/// `tokio::sync::watch::Sender`, the writing end of a watch channel.
#[verifier::external_type_specification]
#[verifier::external_body]
#[verifier::reject_recursive_types(T)]
pub struct ExSender<T>(tokio::sync::watch::Sender<T>);

/// `tokio::sync::watch::Receiver`, a reading end of a watch channel.
#[verifier::external_type_specification]
#[verifier::external_body]
#[verifier::reject_recursive_types(T)]
pub struct ExReceiver<T>(tokio::sync::watch::Receiver<T>);

/// The state of a watch channel.
#[verifier::ext_equal]
pub struct ChannelModel {
    /// Which channel it is. The ends of one channel share it for good.
    pub id: int,
    /// The value that the channel holds.
    pub value: InboundServerModel,
    /// How often the readers have been told of a new value.
    pub updates: nat,
}

/// The state of the channel that a sender writes to.
pub uninterp spec fn channel(tx: watch::Sender<InboundServer>) -> ChannelModel;

/// The state of the channel that a receiver reads from, at the time the
/// receiver was handed out.
pub uninterp spec fn subscription(rx: watch::Receiver<InboundServer>) -> ChannelModel;

/// Whether the channel that a receiver reads from was open, at the time the
/// receiver was handed out. A channel that is not will never hold another value,
/// and all its readers find that out.
pub uninterp spec fn is_open(rx: watch::Receiver<InboundServer>) -> bool;

/// `watch::channel` opens a channel that holds the value given and of which no
/// reader has been told anything yet. Its first receiver is dropped, which
/// leaves the channel open to later subscriptions.
#[verifier::external_body]
fn open_channel(server: InboundServer) -> (tx: watch::Sender<InboundServer>)
    ensures
        channel(tx).value == server.deep_view(),
        channel(tx).updates == 0,
{
    watch::channel(server).0
}

/// `Sender::send_if_modified` hands the value of the channel to a function and
/// tells the readers of a new value if, and only if, the function says that it
/// has changed the value. The function here is [`replace`].
///
/// The call goes through a shared reference; it is taken as a change of the
/// sender because senders are never copied.
#[verifier::external_body]
fn send_unless_same(
    tx: &mut watch::Sender<InboundServer>,
    server: InboundServer,
    forced: bool,
) -> (sent: bool)
    ensures
        sent == (forced || channel(*old(tx)).value != server.deep_view()),
        channel(*final(tx)).id == channel(*old(tx)).id,
        channel(*final(tx)).value == (if sent {
            server.deep_view()
        } else {
            channel(*old(tx)).value
        }),
        channel(*final(tx)).updates == channel(*old(tx)).updates + (if sent {
            1nat
        } else {
            0nat
        }),
{
    tx.send_if_modified(|current| replace(current, server, forced))
}

/// `Sender::subscribe` makes a new receiver of the sender's channel, which is
/// open as long as the sender is there.
#[verifier::external_body]
fn subscribe(tx: &watch::Sender<InboundServer>) -> (rx: watch::Receiver<InboundServer>)
    ensures
        subscription(rx) == channel(*tx),
        is_open(rx),
{
    tx.subscribe()
}

/// `Sender::drop` closes the channel of the last sender, and leaves it as it is
/// otherwise. The receiver given, one of that channel, is handed back.
///
/// Senders are never copied, so the sender given is the last.
#[verifier::external_body]
fn close_channel(
    tx: watch::Sender<InboundServer>,
    rx: watch::Receiver<InboundServer>,
) -> (end: watch::Receiver<InboundServer>)
    requires
        subscription(rx).id == channel(tx).id,
    ensures
        subscription(end) == channel(tx),
        !is_open(end),
{
    drop(tx);
    rx
}

/// Puts a server in the place of the current one, unless they are the same and
/// nothing forces it. Tells whether it did.
pub fn replace(current: &mut InboundServer, server: InboundServer, forced: bool) -> (modified: bool)
    ensures
        modified == (forced || old(current).deep_view() != server.deep_view()),
        modified ==> *final(current) == server,
        !modified ==> *final(current) == *old(current),
{
    if !forced && current.same(&server) {
        return false;
    }
    *current = server;
    true
}

/// The state of a single port.
#[derive(Debug)]
pub struct PortServer {
    /// The name of the resource that configures the port. Unset while the
    /// default policy does.
    name: Option<String>,
    /// The channel on which the server of the port is published.
    watch: watch::Sender<InboundServer>,
}

/// What a [`PortServer`] means.
#[verifier::ext_equal]
pub struct PortServerModel {
    pub name: Option<Text>,
    pub channel: ChannelModel,
}

impl DeepView for PortServer {
    type V = PortServerModel;

    closed spec fn deep_view(&self) -> PortServerModel {
        PortServerModel { name: self.name.deep_view(), channel: channel(self.watch) }
    }
}

impl PortServer {
    /// Follows the server of the port from now on.
    pub fn subscribe(&self) -> (rx: watch::Receiver<InboundServer>)
        ensures
            subscription(rx) == self.deep_view().channel,
            is_open(rx),
    {
        subscribe(&self.watch)
    }

    /// Ends the publishing of the server of the port: its readers, wherever they
    /// are, find the channel closed.
    fn close(self) -> (end: PortEnd)
        ensures
            end.deep_view() == self.deep_view().closed(),
    {
        let rx = subscribe(&self.watch);
        PortEnd { rx: close_channel(self.watch, rx) }
    }
}

/// A reading end of the channel of a port.
#[derive(Debug)]
pub struct PortEnd {
    rx: watch::Receiver<InboundServer>,
}

/// What a [`PortEnd`] means.
#[verifier::ext_equal]
pub struct PortEndModel {
    /// The state of the channel.
    pub channel: ChannelModel,
    /// Whether the channel is open.
    pub open: bool,
}

impl DeepView for PortEnd {
    type V = PortEndModel;

    closed spec fn deep_view(&self) -> PortEndModel {
        PortEndModel { channel: subscription(self.rx), open: is_open(self.rx) }
    }
}

impl PortEnd {
    /// The receiver.
    pub fn receiver(&self) -> (rx: &watch::Receiver<InboundServer>)
        ensures
            subscription(*rx) == self.deep_view().channel,
            is_open(*rx) == self.deep_view().open,
    {
        &self.rx
    }
}

impl PortServerModel {
    /// The end of the channel of a port once that is closed.
    pub open spec fn closed(self) -> PortEndModel {
        PortEndModel { channel: self.channel, open: false }
    }
}

/// The ends of the channels of some ports once those are closed.
pub open spec fn closed_ends(ports: Map<u16, PortServerModel>) -> Map<u16, PortEndModel> {
    ports.map_values(|port: PortServerModel| port.closed())
}

/// How a port comes to be configured by a named resource. A port that is known
/// already keeps its channel, and its readers are told unless nothing changes.
pub open spec fn assigned(
    before: Option<PortServerModel>,
    after: PortServerModel,
    name: Text,
    server: InboundServerModel,
) -> bool {
    &&& after.name == Some(name)
    &&& after.channel.value == server
    &&& match before {
        None => after.channel.updates == 0,
        Some(b) => {
            &&& after.channel.id == b.channel.id
            &&& after.channel.updates == b.channel.updates + (if b.name == Some(name)
                && b.channel.value == server {
                0nat
            } else {
                1nat
            })
        },
    }
}

/// How a port comes to be configured by a default. A port that is known
/// already keeps its channel, and stays as it is if it holds that server
/// already.
pub open spec fn defaulted(
    before: Option<PortServerModel>,
    after: PortServerModel,
    server: InboundServerModel,
) -> bool {
    match before {
        None => {
            &&& after.name is None
            &&& after.channel.value == server
            &&& after.channel.updates == 0
        },
        Some(b) => if b.channel.value == server {
            after == b
        } else {
            &&& after.name is None
            &&& after.channel.id == b.channel.id
            &&& after.channel.value == server
            &&& after.channel.updates == b.channel.updates + 1
        },
    }
}

/// The readers of a known port are told, once, exactly when its configuration
/// changes hands or changes, and they need not look for another channel.
pub proof fn told_when_changed(
    before: PortServerModel,
    after: PortServerModel,
    name: Text,
    server: InboundServerModel,
)
    requires
        assigned(Some(before), after, name, server) || defaulted(Some(before), after, server),
    ensures
        after.channel.id == before.channel.id,
        after.channel.value == server,
        after.channel.updates == before.channel.updates + if after == before {
            0nat
        } else {
            1nat
        },
        before.channel.value != server ==> after != before,
{
}

/// The known ports of a workload.
#[derive(Debug)]
pub struct PortServers {
    by_port: PortTable<PortServer>,
}

impl DeepView for PortServers {
    type V = Map<u16, PortServerModel>;

    closed spec fn deep_view(&self) -> Map<u16, PortServerModel> {
        self.by_port.deep_view()
    }
}

impl PortServers {
    /// No known ports.
    pub fn new() -> (r: Self)
        ensures
            r.deep_view() == Map::<u16, PortServerModel>::empty(),
    {
        PortServers { by_port: PortTable::new() }
    }

    /// Whether a port is known.
    pub fn is_known(&self, port: u16) -> (r: bool)
        ensures
            r == self.deep_view().contains_key(port),
    {
        self.by_port.get(&port).is_some()
    }

    /// The state of a port.
    pub fn get(&self, port: u16) -> (r: Option<&PortServer>)
        ensures
            r.deep_view() == self.deep_view().get(port),
    {
        self.by_port.get(&port)
    }

    /// The known ports.
    pub fn ports(&self) -> (r: PortSet)
        ensures
            r.deep_view() == self.deep_view().dom(),
    {
        let n: usize = self.by_port.len();
        let mut r = PortSet::new();
        let mut i: usize = 0;
        while i < n
            invariant
                i <= n,
                n == self.by_port.walk().len(),
                r.deep_view() =~= self.by_port.walk().take(i as int).to_set(),
            decreases n - i,
        {
            r.insert(*self.by_port.key_at(i));
            proof {
                take_one_more(self.by_port.walk(), i as int);
            }
            i = i + 1;
        }
        assert(self.by_port.walk().take(i as int) =~= self.by_port.walk());
        r
    }

    /// Ends the publishing of all servers: their readers, wherever they are, find
    /// the channels closed.
    pub fn close(self) -> (ends: PortTable<PortEnd>)
        ensures
            ends.deep_view() == closed_ends(self.deep_view()),
    {
        let ghost all = self.deep_view();
        let mut by_port = self.by_port;
        let mut ends: PortTable<PortEnd> = PortTable::new();
        loop
            invariant
                by_port.deep_view().submap_of(all),
                ends.deep_view() =~= closed_ends(all.remove_keys(by_port.deep_view().dom())),
            ensures
                ends.deep_view() == closed_ends(all),
            decreases by_port.walk().len(),
        {
            let (port, server) = match by_port.pop() {
                Some(entry) => entry,
                None => break,
            };
            ends.insert(port, server.close());
        }
        ends
    }

    /// Has a port configured by a named resource.
    pub fn update_server(&mut self, port: u16, name: &String, server: InboundServer)
        ensures
            final(self).deep_view().contains_key(port),
            final(self).deep_view() == old(self).deep_view().insert(
                port,
                final(self).deep_view()[port],
            ),
            assigned(
                old(self).deep_view().get(port),
                final(self).deep_view()[port],
                name@,
                server.deep_view(),
            ),
    {
        match self.by_port.get_mut(&port) {
            Some(ps) => {
                let renamed = match &ps.name {
                    Some(current) => *current != *name,
                    None => true,
                };
                let _ = send_unless_same(&mut ps.watch, server, renamed);
                if renamed {
                    ps.name = Some(name.clone());
                }
                return ;
            },
            None => {},
        }
        let watch = open_channel(server);
        self.by_port.insert(port, PortServer { name: Some(name.clone()), watch });
    }

    /// Has a port configured by a default.
    pub fn set_default_server(&mut self, port: u16, server: InboundServer)
        ensures
            final(self).deep_view().contains_key(port),
            final(self).deep_view() == old(self).deep_view().insert(
                port,
                final(self).deep_view()[port],
            ),
            defaulted(
                old(self).deep_view().get(port),
                final(self).deep_view()[port],
                server.deep_view(),
            ),
    {
        match self.by_port.get_mut(&port) {
            Some(ps) => {
                if send_unless_same(&mut ps.watch, server, false) {
                    ps.name = None;
                }
                return ;
            },
            None => {},
        }
        self.by_port.insert(port, PortServer { name: None, watch: open_channel(server) });
    }
}

} // verus!

use vstd::prelude::*;

use crate::command::CommandWrapper;
use crate::room::RoomCommand;
use crate::unit::UnitCommand;

verus! {

/// What players send each other: a command for a unit or for the room.
pub enum NetworkCommand {
    UnitCommand(UnitCommand),
    RoomCommand(CommandWrapper<RoomCommand>),
}

impl From<UnitCommand> for NetworkCommand {
    /// A unit command as sent on the network.
    fn from(other: UnitCommand) -> (r: Self) {
        NetworkCommand::UnitCommand(other)
    }
}

impl vstd::std_specs::convert::FromSpecImpl<UnitCommand> for NetworkCommand {
    open spec fn obeys_from_spec() -> bool {
        true
    }

    open spec fn from_spec(other: UnitCommand) -> Self {
        NetworkCommand::UnitCommand(other)
    }
}

impl From<CommandWrapper<RoomCommand>> for NetworkCommand {
    /// A room command as sent on the network.
    fn from(other: CommandWrapper<RoomCommand>) -> (r: Self) {
        NetworkCommand::RoomCommand(other)
    }
}

impl vstd::std_specs::convert::FromSpecImpl<CommandWrapper<RoomCommand>> for NetworkCommand {
    open spec fn obeys_from_spec() -> bool {
        true
    }

    open spec fn from_spec(other: CommandWrapper<RoomCommand>) -> Self {
        NetworkCommand::RoomCommand(other)
    }
}

/// The streams, in order, that a message read from stream `from` of `n` is
/// passed on to: every other one.
pub open spec fn relay_targets(n: int, from: int) -> Seq<usize> {
    Seq::new((n - 1) as nat, |j: int| (if j < from { j } else { j + 1 }) as usize)
}

/// Collects what the connected streams sent, one stream after the other:
/// the pump asks for a read of stream `stream_index`; a message that
/// decodes is passed on to the other streams and handed out, and the same
/// stream is read again; otherwise the pump moves on to the next stream.
#[derive(Clone, Copy, Debug)]
pub struct NetworkPump {
    pub stream_index: usize,
}

impl NetworkPump {
    pub fn new() -> (r: NetworkPump)
        ensures
            r.stream_index == 0,
    {
        NetworkPump { stream_index: 0 }
    }

    /// The stream to read next among `n`, or `None` when every one has been
    /// read.
    pub fn poll(&self, n: usize) -> (r: Option<usize>)
        ensures
            r == (if self.stream_index < n { Some(self.stream_index) } else { None::<usize> }),
    {
        if self.stream_index < n {
            Some(self.stream_index)
        } else {
            None
        }
    }

    /// Takes the outcome of reading stream `stream_index` of `n`: whether a
    /// message arrived and decoded. If it did, the streams to pass it on to,
    /// and the same stream is read next; if not, `None`, and the pump moves
    /// on.
    pub fn received(&mut self, n: usize, decoded: bool) -> (r: Option<Vec<usize>>)
        requires
            old(self).stream_index < n,
        ensures
            decoded ==> final(self).stream_index == old(self).stream_index,
            decoded ==> (r matches Some(v) && v@ == relay_targets(n as int, old(self).stream_index as int)),
            !decoded ==> final(self).stream_index == old(self).stream_index + 1 && r is None,
    {
        if decoded {
            let from = self.stream_index;
            let mut v: Vec<usize> = Vec::new();
            let mut j: usize = 0;
            while j < n
                invariant
                    0 <= j <= n,
                    from < n,
                    v@.len() == (if j <= from { j as int } else { j - 1 }),
                    forall|t: int| 0 <= t < v@.len() ==> #[trigger] v@[t] == (if t < from { t } else { t + 1 }),
                decreases n - j,
            {
                if j != from {
                    v.push(j);
                }
                j = j + 1;
            }
            assert(v@ =~= relay_targets(n as int, from as int));
            Some(v)
        } else {
            self.stream_index = self.stream_index + 1;
            None
        }
    }
}

} // verus!

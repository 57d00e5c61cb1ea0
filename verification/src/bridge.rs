//! The subprocess bridge of process-proxy mode: two copy loops run between
//! the channel and the spawned program's pipes, and this module decides
//! what each loop does with what it read. Bytes cross unchanged in both
//! directions; the first end-of-stream on either side ends the session and
//! closes the channel explicitly.

use vstd::prelude::*;

verus! {

/// What one copy loop observed: a chunk from the subprocess's output, a
/// chunk of inbound channel data, or end-of-stream on either side.
pub enum BridgeEvent {
    ProcessOutput { bytes: Vec<u8> },
    ChannelInput { bytes: Vec<u8> },
    ProcessEof,
    ChannelEof,
}

/// What the bridge does with it: write the chunk to the other side
/// unchanged, or close the channel.
pub enum BridgeAction {
    WriteChannel { bytes: Vec<u8> },
    WriteProcess { bytes: Vec<u8> },
    CloseChannel,
}

/// The bridge's decision: subprocess output goes to the channel byte for
/// byte, channel input goes to the subprocess byte for byte, and either
/// side's end-of-stream closes the channel.
pub open spec fn spec_bridge_step(ev: BridgeEvent) -> BridgeAction {
    match ev {
        BridgeEvent::ProcessOutput { bytes } => BridgeAction::WriteChannel { bytes },
        BridgeEvent::ChannelInput { bytes } => BridgeAction::WriteProcess { bytes },
        BridgeEvent::ProcessEof => BridgeAction::CloseChannel,
        BridgeEvent::ChannelEof => BridgeAction::CloseChannel,
    }
}

/// Performs one bridge step; see `spec_bridge_step`.
pub fn bridge_step(ev: BridgeEvent) -> (a: BridgeAction)
    ensures
        a == spec_bridge_step(ev),
{
    match ev {
        BridgeEvent::ProcessOutput { bytes } => BridgeAction::WriteChannel { bytes },
        BridgeEvent::ChannelInput { bytes } => BridgeAction::WriteProcess { bytes },
        BridgeEvent::ProcessEof => BridgeAction::CloseChannel,
        BridgeEvent::ChannelEof => BridgeAction::CloseChannel,
    }
}

/// All the bytes a trace of events carries toward the subprocess.
pub open spec fn channel_bytes_of(evs: Seq<BridgeEvent>) -> Seq<u8>
    decreases evs.len(),
{
    if evs.len() == 0 {
        Seq::empty()
    } else {
        channel_bytes_of(evs.drop_last()) + (match evs.last() {
            BridgeEvent::ChannelInput { bytes } => bytes@,
            _ => Seq::empty(),
        })
    }
}

/// All the bytes a trace of events carries toward the channel.
pub open spec fn process_bytes_of(evs: Seq<BridgeEvent>) -> Seq<u8>
    decreases evs.len(),
{
    if evs.len() == 0 {
        Seq::empty()
    } else {
        process_bytes_of(evs.drop_last()) + (match evs.last() {
            BridgeEvent::ProcessOutput { bytes } => bytes@,
            _ => Seq::empty(),
        })
    }
}

/// All the bytes a trace of actions writes to the subprocess's input.
pub open spec fn written_to_process(acts: Seq<BridgeAction>) -> Seq<u8>
    decreases acts.len(),
{
    if acts.len() == 0 {
        Seq::empty()
    } else {
        written_to_process(acts.drop_last()) + (match acts.last() {
            BridgeAction::WriteProcess { bytes } => bytes@,
            _ => Seq::empty(),
        })
    }
}

/// All the bytes a trace of actions writes to the channel.
pub open spec fn written_to_channel(acts: Seq<BridgeAction>) -> Seq<u8>
    decreases acts.len(),
{
    if acts.len() == 0 {
        Seq::empty()
    } else {
        written_to_channel(acts.drop_last()) + (match acts.last() {
            BridgeAction::WriteChannel { bytes } => bytes@,
            _ => Seq::empty(),
        })
    }
}

/// The actions the bridge takes on a whole trace of events.
pub open spec fn bridge_actions(evs: Seq<BridgeEvent>) -> Seq<BridgeAction> {
    evs.map_values(|ev: BridgeEvent| spec_bridge_step(ev))
}

/// Law of the bridge: over any trace of events, what the bridge writes to
/// the subprocess is exactly the channel's inbound bytes, in order, and
/// what it writes to the channel is exactly the subprocess's output bytes,
/// in order — byte-for-byte fidelity in both directions.
pub proof fn lemma_bridge_stream(evs: Seq<BridgeEvent>)
    ensures
        written_to_process(bridge_actions(evs)) == channel_bytes_of(evs),
        written_to_channel(bridge_actions(evs)) == process_bytes_of(evs),
    decreases evs.len(),
{
    let acts = bridge_actions(evs);
    if evs.len() == 0 {
        assert(acts =~= Seq::empty());
    } else {
        lemma_bridge_stream(evs.drop_last());
        assert(acts.drop_last() =~= bridge_actions(evs.drop_last()));
        assert(acts.last() == spec_bridge_step(evs.last()));
    }
}

} // verus!

use vstd::prelude::*;

use crate::bus::{spec_read, BusCursor, FanoutBus};
use crate::protocol::{ARFrame, ARScene};

verus! {

/// Status string served by the gateway's health query.
pub fn health() -> (r: &'static str)
    ensures
        r@ =~= "MERLIN GraphQL Gateway OK"@,
{
    "MERLIN GraphQL Gateway OK"
}

/// The reduced scene a gateway consumer sees of one frame.
pub fn scene_of_frame(f: &ARFrame) -> (r: ARScene)
    ensures
        r == (ARScene { timestamp: f.timestamp, frame_id: f.frame_id }),
{
    ARScene { timestamp: f.timestamp, frame_id: f.frame_id }
}

/// Publish one frame's scene to the gateway bus. Succeeds whatever the
/// number of subscribers: having none is not an error, the scene is simply
/// retained for whoever comes.
pub fn broadcast_frame(bus: &mut FanoutBus<ARScene>, frame: &ARFrame)
    requires
        old(bus).wf(),
        old(bus).hist().len() < u64::MAX,
    ensures
        final(bus).wf(),
        final(bus).cap() == old(bus).cap(),
        final(bus).hist() == old(bus).hist().push(
            ARScene { timestamp: frame.timestamp, frame_id: frame.frame_id },
        ),
{
    let scene = scene_of_frame(frame);
    bus.publish(scene);
}

/// One pull of a gateway subscription: the next scene for this consumer and
/// the number of scenes it missed, or `None` when it has caught up and must
/// wait for the next publication.
pub fn next_scene(bus: &FanoutBus<ARScene>, c: &mut BusCursor) -> (r: Option<(ARScene, u64)>)
    requires
        bus.wf(),
    ensures
        match spec_read(bus.hist().len(), bus.cap(), old(c).pos as nat) {
            None => r is None && final(c).pos == old(c).pos,
            Some((idx, skipped, newpos)) => {
                &&& r matches Some(p)
                &&& p.0 == bus.hist()[idx as int]
                &&& p.1 == skipped
                &&& final(c).pos == newpos
            },
        },
{
    match bus.try_next(c) {
        None => None,
        Some((scene, skipped)) => Some((*scene, skipped)),
    }
}

/// Source of simulated scenes for a gateway running without an upstream
/// producer.
pub struct FrameSimulator {
    /// Id the next simulated scene carries.
    pub frame_id: u32,
}

impl FrameSimulator {
    /// A simulator starting at frame zero.
    pub fn new() -> (r: Self)
        ensures
            r.frame_id == 0,
    {
        FrameSimulator { frame_id: 0 }
    }

    /// One simulated tick: publish a scene stamped with the clock and the
    /// running id, which advances with wraparound — after the largest id
    /// comes zero, never an error.
    pub fn tick(&mut self, bus: &mut FanoutBus<ARScene>, now_us: u64)
        requires
            old(bus).wf(),
            old(bus).hist().len() < u64::MAX,
        ensures
            final(bus).wf(),
            final(bus).cap() == old(bus).cap(),
            final(bus).hist() == old(bus).hist().push(
                ARScene { timestamp: now_us, frame_id: old(self).frame_id },
            ),
            final(self).frame_id == (old(self).frame_id + 1) % 0x1_0000_0000int,
    {
        let scene = ARScene { timestamp: now_us, frame_id: self.frame_id };
        bus.publish(scene);
        self.frame_id = self.frame_id.wrapping_add(1);
    }
}

} // verus!

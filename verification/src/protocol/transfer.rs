//! Starting the transfer of a preflighted image.

use vstd::prelude::*;

use super::preflight::{BlockView, Uf2Block, Uf2Image};
use super::session::{start_spec, wf, Action, Handshake, Sender};
use super::wire::{plan_of, BlockPlan, PlanView};

verus! {

/// How long a transfer waits for a reply line by default, in milliseconds.
pub const DEFAULT_RESPONSE_TIMEOUT_MS: u64 = 500;
/// How many attempts a transfer makes at each block by default.
pub const DEFAULT_RETRIES: u32 = 3;
/// How long a transfer waits between attempts at one block by default, in milliseconds.
pub const DEFAULT_RETRY_DELAY_MS: u64 = 100;
/// How long an echo-first transfer waits after disabling local echo by default, in
/// milliseconds.
pub const DEFAULT_SETTLE_DELAY_MS: u64 = 100;

/// The plans of the blocks `blocks`, in order.
pub open spec fn image_plans(blocks: Seq<BlockView>) -> Seq<PlanView> {
    blocks.map_values(|b: BlockView| plan_of(b.bytes, b.address, b.payload_size))
}

/// Plans every block of `image`, in order.
pub fn plan_image(image: &Uf2Image) -> (plans: Vec<BlockPlan>)
    ensures
        plans@.map_values(|p: BlockPlan| p@) == image_plans(image@),
{
    let blocks = image.blocks();
    let n = blocks.len();
    let mut plans: Vec<BlockPlan> = Vec::new();
    let mut i: usize = 0;
    while i < n
        invariant
            n == blocks@.len(),
            blocks@.map_values(|x: Uf2Block| x@) == image@,
            i <= n,
            plans@.len() == i,
            forall|j: int|
                0 <= j < i ==> #[trigger] plans@[j]@ == plan_of(
                    blocks@[j]@.bytes,
                    blocks@[j]@.address,
                    blocks@[j]@.payload_size,
                ),
        decreases n - i,
    {
        let block = &blocks[i];
        let plan = BlockPlan::new(block.bytes(), block.address(), block.payload_size());
        plans.push(plan);
        i = i + 1;
    }
    proof {
        assert forall|j: int| 0 <= j < n implies #[trigger] image_plans(image@)[j] == plans@[j]@ by {
            assert(image@[j] == blocks@[j]@);
        }
        assert(plans@.map_values(|p: BlockPlan| p@) =~= image_plans(image@));
    }
    plans
}

/// Starts sending `image` with the echo-first handshake, allowing `retries` attempts per
/// block; returns the sender and its first action.
pub fn start_transfer(image: &Uf2Image, retries: u32) -> (r: (Sender, Action))
    requires
        (retries - 1) * image@.len() <= u32::MAX,
    ensures
        (r.0@, r.1@) == start_spec(Handshake::EchoFirst, retries, image_plans(image@)),
        wf(r.0@),
{
    let plans = plan_image(image);
    assert(plans@.len() == plans@.map_values(|p: BlockPlan| p@).len());
    assert(plans@.len() == image@.len());
    Sender::new(Handshake::EchoFirst, retries, plans)
}

} // verus!

//! Vault sizes: how large a fresh ring is, and how a full vault grows.
//!
//! A put that finds the tract full of live data is not lost: the tract is doubled and the put is
//! made once more. Each engine reply goes to one of the three functions below, which say what to do
//! next; no chain of replies leads to more than two puts and one growth.

use crate::text::concat2;
use vstd::prelude::*;

verus! {

/// Blocks of a fresh vault's tract. A vault starts small; growth is cheap.
pub const INITIAL_TRACT_BLOCKS: u64 = 4096;

/// The engine's reply to a put.
pub enum PutReply {
    /// The value is durable.
    Stored,
    /// The tract, of `tract_blocks` blocks, is full of live data.
    TractFull { tract_blocks: u64, message: String },
    /// Any other failure, in the engine's words.
    Failed { message: String },
}

/// What to do after the first put.
pub enum AfterPut {
    /// The put is over.
    Finished(Result<(), String>),
    /// Grow the tract to this many blocks.
    Grow { target_blocks: u64 },
}

/// What to do after growing.
pub enum AfterGrow {
    /// The put is over.
    Finished(Result<(), String>),
    /// Put the same value once more.
    Retry,
}

/// `Ok`, or a message as characters.
pub open spec fn outcome_seen(r: Result<(), String>) -> Result<(), Seq<char>> {
    match r {
        Ok(()) => Ok(()),
        Err(message) => Err(message@),
    }
}

/// A put's reply as the caller of that put alone would get it.
pub open spec fn reply_outcome(reply: PutReply) -> Result<(), Seq<char>> {
    match reply {
        PutReply::Stored => Ok(()),
        PutReply::TractFull { tract_blocks: _, message } => Err(message@),
        PutReply::Failed { message } => Err(message@),
    }
}

/// The size a full tract of `blocks` blocks grows to: twice as many, as far as that can be counted.
pub open spec fn doubled(blocks: u64) -> int {
    if 2 * blocks <= u64::MAX {
        2 * blocks
    } else {
        u64::MAX as int
    }
}

/// Whether `next` is what follows the reply to the first put.
pub open spec fn follows_put(reply: PutReply, next: AfterPut) -> bool {
    match reply {
        PutReply::TractFull { tract_blocks, message: _ } => next matches AfterPut::Grow {
            target_blocks,
        } && target_blocks == doubled(tract_blocks),
        _ => next matches AfterPut::Finished(r) && outcome_seen(r) == reply_outcome(reply),
    }
}

/// Whether `next` is what follows an attempt to grow.
pub open spec fn follows_growth(grown: Result<(), String>, next: AfterGrow) -> bool {
    match grown {
        Ok(()) => next is Retry,
        Err(message) => next matches AfterGrow::Finished(r) && outcome_seen(r) == Err::<
            (),
            Seq<char>,
        >("vault grow: "@ + message@),
    }
}

/// The whole of a growing put: what its caller gets for the replies to the first put, to the
/// growth and to the second put. Replies to what was not asked for do not matter.
pub open spec fn growing_outcome(
    first: PutReply,
    grown: Result<(), String>,
    second: PutReply,
) -> Result<(), Seq<char>> {
    match first {
        PutReply::TractFull { .. } => match grown {
            Ok(()) => reply_outcome(second),
            Err(message) => Err("vault grow: "@ + message@),
        },
        _ => reply_outcome(first),
    }
}

/// The blocks of a fresh ring file whose spine has two to the `ring_log2` blocks.
pub fn device_blocks(ring_log2: u8) -> (blocks: u64)
    requires
        ring_log2 < 64,
    ensures
        blocks == vstd::arithmetic::power2::pow2(ring_log2 as nat) + INITIAL_TRACT_BLOCKS,
        blocks == vstd::arithmetic::power2::pow2(ring_log2 as nat) + 4096,
{
    proof {
        vstd::arithmetic::power2::lemma_pow2_strictly_increases(ring_log2 as nat, 64);
        vstd::arithmetic::power2::lemma2_to64();
        vstd::bits::lemma_u64_pow2_no_overflow(ring_log2 as nat);
        vstd::bits::lemma_u64_shl_is_mul(1, ring_log2 as u64);
        assert((1u64 << ring_log2) <= 0x8000_0000_0000_0000u64) by (bit_vector)
            requires
                ring_log2 < 64,
        ;
    }
    (1u64 << ring_log2) + INITIAL_TRACT_BLOCKS
}

/// The result of a put that is not tried again.
fn settled(reply: PutReply) -> (r: Result<(), String>)
    ensures
        outcome_seen(r) == reply_outcome(reply),
{
    match reply {
        PutReply::Stored => Ok(()),
        PutReply::TractFull { tract_blocks: _, message } => Err(message),
        PutReply::Failed { message } => Err(message),
    }
}

/// What to do with the reply to the first put: a full tract grows to twice its size, anything else
/// is final.
pub fn put_growing(reply: PutReply) -> (next: AfterPut)
    ensures
        follows_put(reply, next),
        match reply {
            PutReply::Stored => next matches AfterPut::Finished(r) && r is Ok,
            PutReply::TractFull { tract_blocks, message: _ } => next matches AfterPut::Grow {
                target_blocks,
            } && target_blocks == (if 2 * tract_blocks <= u64::MAX {
                2 * tract_blocks
            } else {
                u64::MAX as int
            }),
            PutReply::Failed { message } => next matches AfterPut::Finished(Err(told)) && told@
                == message@,
        },
{
    match reply {
        PutReply::TractFull { tract_blocks, message: _ } => {
            let target_blocks: u64 = match tract_blocks.checked_mul(2) {
                Some(blocks) => blocks,
                None => u64::MAX,
            };
            AfterPut::Grow { target_blocks }
        },
        other => AfterPut::Finished(settled(other)),
    }
}

/// What to do once the tract has grown, or failed to.
pub fn put_grown(grown: Result<(), String>) -> (next: AfterGrow)
    ensures
        follows_growth(grown, next),
        match grown {
            Ok(()) => next is Retry,
            Err(message) => next matches AfterGrow::Finished(Err(told)) && told@ == "vault grow: "@
                + message@,
        },
{
    match grown {
        Ok(()) => AfterGrow::Retry,
        Err(message) => AfterGrow::Finished(Err(concat2("vault grow: ", message.as_str()))),
    }
}

/// The result of the second put, whatever it is: nothing is tried a third time.
pub fn put_retried(reply: PutReply) -> (r: Result<(), String>)
    ensures
        outcome_seen(r) == reply_outcome(reply),
        match reply {
            PutReply::Stored => r is Ok,
            PutReply::TractFull { tract_blocks: _, message } => r matches Err(told) && told@
                == message@,
            PutReply::Failed { message } => r matches Err(told) && told@ == message@,
        },
{
    settled(reply)
}

/// Taken one after the other, the three steps come to what a growing put promises: one growth at
/// most, two puts at most, and the result of the last thing done.
pub proof fn steps_make_a_growing_put(
    first: PutReply,
    after_put: AfterPut,
    grown: Result<(), String>,
    after_grow: AfterGrow,
    second: PutReply,
    last: Result<(), String>,
)
    requires
        follows_put(first, after_put),
        follows_growth(grown, after_grow),
        outcome_seen(last) == reply_outcome(second),
    ensures
        growing_outcome(first, grown, second) == (match after_put {
            AfterPut::Finished(r) => outcome_seen(r),
            AfterPut::Grow { .. } => match after_grow {
                AfterGrow::Finished(r) => outcome_seen(r),
                AfterGrow::Retry => outcome_seen(last),
            },
        }),
{
}

/// A growing put succeeds exactly if the first put did, or if the tract was full, could be grown
/// and took the value then.
pub proof fn growing_put_succeeds_iff(
    first: PutReply,
    grown: Result<(), String>,
    second: PutReply,
)
    ensures
        growing_outcome(first, grown, second) is Ok <==> (first is Stored || (first is TractFull
            && grown is Ok && second is Stored)),
{
}

/// A full tract of at least one block grows, unless no larger number of blocks can be counted.
pub proof fn growth_makes_room(tract_blocks: u64)
    requires
        0 < tract_blocks < u64::MAX,
    ensures
        doubled(tract_blocks) > tract_blocks,
        doubled(tract_blocks) <= u64::MAX,
{
}

/// A full tract doubles, every time: whatever step follows the reply asks for exactly twice the
/// blocks, or, where twice as many cannot be counted, for all that can.
pub proof fn growth_doubles(reply: PutReply, next: AfterPut)
    requires
        follows_put(reply, next),
        reply is TractFull,
    ensures
        next matches AfterPut::Grow { target_blocks } && {
            &&& 2 * reply->tract_blocks <= u64::MAX ==> target_blocks == 2 * reply->tract_blocks
            &&& 2 * reply->tract_blocks > u64::MAX ==> target_blocks == u64::MAX
        },
{
}

/// A growing put tells its caller what happened: nothing went wrong, or the words of what did, the
/// growth's under its own heading.
pub proof fn growing_puts_pass_on_the_words(
    first: PutReply,
    grown: Result<(), String>,
    second: PutReply,
)
    ensures
        first is Stored ==> growing_outcome(first, grown, second) is Ok,
        first matches PutReply::Failed { message } ==> growing_outcome(first, grown, second)
            == Err::<(), Seq<char>>(message@),
        first is TractFull && grown is Err ==> growing_outcome(first, grown, second) == Err::<
            (),
            Seq<char>,
        >("vault grow: "@ + grown->Err_0@),
        first is TractFull && grown is Ok && second is Stored ==> growing_outcome(
            first,
            grown,
            second,
        ) is Ok,
        first is TractFull && grown is Ok && second is Failed ==> growing_outcome(
            first,
            grown,
            second,
        ) == Err::<(), Seq<char>>(second->Failed_message@),
        first is TractFull && grown is Ok && second is TractFull ==> growing_outcome(
            first,
            grown,
            second,
        ) == Err::<(), Seq<char>>(second->TractFull_message@),
{
}

/// The caller's clock in whole seconds since the epoch, where the clock reads no earlier than it
/// does there; zero for a clock that does. Only commit metadata carries it.
pub fn unix_now(since_epoch: Option<u64>) -> (now: i64)
    ensures
        match since_epoch {
            Some(seconds) => now == seconds as i64,
            None => now == 0,
        },
{
    match since_epoch {
        Some(seconds) => seconds as i64,
        None => 0,
    }
}

} // verus!

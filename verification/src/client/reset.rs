//! Bringing all slaves back to a known state before they are configured.

use super::Client;
use crate::register::RegisterAddress;
use crate::state::{AlControl, SlaveState};
use vstd::prelude::*;

verus! {

/// A broadcast that writes zeroes to the memory of every slave.
#[derive(Debug, PartialEq, Eq, Structural, Copy, Clone)]
pub struct ZeroChunk {
    /// The memory location to start at.
    pub start: u16,
    /// The number of bytes to clear.
    pub len: u16,
}

/// One broadcast of the sequence that resets all slaves.
#[derive(Debug, PartialEq, Eq, Structural, Copy, Clone)]
pub enum ResetStep {
    /// Write to the AL control register.
    Control(AlControl),
    /// Clear a piece of memory.
    Zeros(ZeroChunk),
    /// Write a 16 bit value to a register.
    Write {
        /// The register to write to.
        register: RegisterAddress,
        /// The value to write.
        value: u16,
    },
}

/// The number of chunks of `step` bytes that it takes to cover `len` bytes.
pub open spec fn chunk_count(len: int, step: int) -> int {
    (len + step - 1) / step
}

/// The chunk with the given index: chunks of `step` bytes lie end to end from `start` on.
pub open spec fn chunk(start: int, step: int, index: int) -> ZeroChunk {
    ZeroChunk { start: (start + index * step) as u16, len: (step % 0x1_0000) as u16 }
}

/// The chunks that clear `len` bytes from `start` on.
pub open spec fn chunks(start: int, len: int, step: int) -> Seq<ZeroChunk> {
    Seq::new(chunk_count(len, step) as nat, |index: int| chunk(start, step, index))
}

/// The steps that clear `len` bytes from a register on.
pub open spec fn clear(register: RegisterAddress, len: int, step: int) -> Seq<ResetStep> {
    chunks(register.location() as int, len, step).map_values(|c: ZeroChunk| ResetStep::Zeros(c))
}

/// The steps that reset all slaves, in order, with frames of `step` data bytes.
pub open spec fn reset_steps(step: int) -> Seq<ResetStep> {
    seq![
        ResetStep::Control(AlControl { state: SlaveState::Init, error: true, id_request: false }),
    ] + clear(RegisterAddress::Fmmu0, 0xff, step) + clear(RegisterAddress::Sm0, 0x7f, step) + clear(
        RegisterAddress::DcSystemTime,
        8,
        step,
    ) + clear(RegisterAddress::DcSystemTimeOffset, 8, step) + clear(
        RegisterAddress::DcSystemTimeTransmissionDelay,
        4,
        step,
    ) + seq![
        ResetStep::Write { register: RegisterAddress::DcControlLoopParam3, value: 0x0c00 },
        ResetStep::Write { register: RegisterAddress::DcControlLoopParam1, value: 0x1000 },
    ]
}

/// One more chunk is needed exactly while the chunks so far do not reach the end.
proof fn lemma_chunk_count(len: int, step: int, k: int)
    by (nonlinear_arith)
    requires
        0 <= len,
        0 < step,
        0 <= k,
    ensures
        k * step < len <==> k < chunk_count(len, step),
        0 <= k * step,
        (k + 1) * step == k * step + step,
{
    let count = (len + step - 1) / step;
    let rest = (len + step - 1) % step;
    assert(len + step - 1 == step * count + rest);
    assert(0 <= rest < step);
    if k < count {
        assert((k + 1) * step <= count * step);
    } else {
        assert(count * step <= k * step);
    }
}

impl Client {
    /// Write zeroes to every slave's memory in chunks.
    ///
    /// Every chunk is as long as the data of a frame, so the last one may go past the end of the
    /// memory to clear.
    pub fn blank_memory(&self, start: u16, len: u16) -> (zeros: Vec<ZeroChunk>)
        requires
            self.max_frame_data() > 0,
            start + len <= u16::MAX,
        ensures
            zeros@ == chunks(start as int, len as int, self.max_frame_data() as int),
    {
        let step: usize = self.pdu_loop.max_frame_data;
        let end: usize = start as usize + len as usize;
        let chunk_len: u16 = (step % 0x1_0000) as u16;
        let mut zeros: Vec<ZeroChunk> = Vec::new();
        let mut chunk_start: usize = start as usize;

        proof {
            lemma_chunk_count(len as int, step as int, 0);
        }
        while chunk_start < end
            invariant
                step > 0,
                step == self.max_frame_data(),
                chunk_len == step % 0x1_0000,
                start <= chunk_start,
                start + len == end <= u16::MAX,
                chunk_start < end ==> chunk_start == start + zeros@.len() * step,
                zeros@.len() <= chunk_count(len as int, step as int),
                chunk_start >= end ==> zeros@.len() == chunk_count(len as int, step as int),
                forall|i: int|
                    0 <= i < zeros@.len() ==> #[trigger] zeros@[i] == chunk(
                        start as int,
                        step as int,
                        i,
                    ),
            decreases end - chunk_start,
        {
            proof {
                lemma_chunk_count(len as int, step as int, zeros@.len() as int);
                lemma_chunk_count(len as int, step as int, zeros@.len() as int + 1);
            }
            zeros.push(ZeroChunk { start: chunk_start as u16, len: chunk_len });
            chunk_start = if step < end - chunk_start {
                chunk_start + step
            } else {
                end
            };
        }
        assert(zeros@ =~= chunks(start as int, len as int, step as int));

        zeros
    }

    /// Append the steps that clear `len` bytes from a register on.
    fn clear_register(&self, steps: &mut Vec<ResetStep>, register: RegisterAddress, len: u16)
        requires
            self.max_frame_data() > 0,
            register.location() + len <= u16::MAX,
        ensures
            final(steps)@ == old(steps)@ + clear(
                register,
                len as int,
                self.max_frame_data() as int,
            ),
    {
        let zeros = self.blank_memory(u16::from(register), len);

        for i in 0..zeros.len()
            invariant
                zeros@ == chunks(
                    register.location() as int,
                    len as int,
                    self.max_frame_data() as int,
                ),
                steps@ == old(steps)@ + clear(
                    register,
                    len as int,
                    self.max_frame_data() as int,
                ).take(i as int),
        {
            steps.push(ResetStep::Zeros(zeros[i]));
            assert(steps@ =~= old(steps)@ + clear(
                register,
                len as int,
                self.max_frame_data() as int,
            ).take(i + 1));
        }
        assert(steps@ =~= old(steps)@ + clear(
            register,
            len as int,
            self.max_frame_data() as int,
        ));
    }

    /// The broadcasts that reset all slaves, in the order in which they have to be sent.
    pub fn reset_slaves(&self) -> (steps: Vec<ResetStep>)
        requires
            self.max_frame_data() > 0,
        ensures
            steps@ == reset_steps(self.max_frame_data() as int),
    {
        let mut steps: Vec<ResetStep> = Vec::new();

        // Reset slaves to init
        steps.push(ResetStep::Control(AlControl::reset()));

        // Clear FMMUs. FMMU memory section is 0xff (255) bytes long
        self.clear_register(&mut steps, RegisterAddress::Fmmu0, 0xff);

        // Clear SMs. SM memory section is 0x7f bytes long
        self.clear_register(&mut steps, RegisterAddress::Sm0, 0x7f);

        // The system time and its offset are 64 bit, the transmission delay is 32 bit
        self.clear_register(&mut steps, RegisterAddress::DcSystemTime, 8);
        self.clear_register(&mut steps, RegisterAddress::DcSystemTimeOffset, 8);
        self.clear_register(&mut steps, RegisterAddress::DcSystemTimeTransmissionDelay, 4);

        // These are the initial parameters of the mode where the DC reference clock is adjusted to the
        // master clock.
        steps.push(
            ResetStep::Write { register: RegisterAddress::DcControlLoopParam3, value: 0x0c00 },
        );
        // Must be after param 3 so DC control unit is reset
        steps.push(
            ResetStep::Write { register: RegisterAddress::DcControlLoopParam1, value: 0x1000 },
        );
        assert(steps@ =~= reset_steps(self.max_frame_data() as int));

        steps
    }
}

/// Every byte of the memory to clear lies in exactly one chunk, and no chunk starts outside of the
/// memory, as long as a chunk's length fits its 16 bits.
pub proof fn law_chunks_cover_memory(start: u16, len: u16, step: usize, location: int)
    requires
        0 < step <= u16::MAX,
        start + len <= u16::MAX,
        start <= location < start + len,
    ensures
        exists|i: int|
            0 <= i < chunks(start as int, len as int, step as int).len() && #[trigger] in_chunk(
                chunks(start as int, len as int, step as int)[i],
                location,
            ),
        forall|i: int, j: int|
            0 <= i < chunks(start as int, len as int, step as int).len() && 0 <= j < chunks(
                start as int,
                len as int,
                step as int,
            ).len() && #[trigger] in_chunk(
                chunks(start as int, len as int, step as int)[i],
                location,
            ) && #[trigger] in_chunk(
                chunks(start as int, len as int, step as int)[j],
                location,
            ) ==> i == j,
        forall|i: int|
            0 <= i < chunks(start as int, len as int, step as int).len() ==> start <= (
            #[trigger] chunks(start as int, len as int, step as int)[i]).start < start + len,
{
    let all = chunks(start as int, len as int, step as int);
    let step = step as int;
    let len = len as int;
    assert forall|i: int| 0 <= i < all.len() implies all[i].start == start + i * step && all[i].len
        == step && start <= (#[trigger] all[i]).start < start + len by {
        lemma_chunk_count(len, step, i);
    }
    let i = (location - start) / step;
    assert(i * step <= location - start < (i + 1) * step && 0 <= i) by (nonlinear_arith)
        requires
            i == (location - start) / step,
            0 <= location - start,
            0 < step,
    ;
    lemma_chunk_count(len, step, i);
    assert(in_chunk(all[i], location));
    assert forall|j: int| 0 <= j < all.len() && #[trigger] in_chunk(all[j], location) implies j
        == i by {
        assert(all[j].start == start + j * step);
        assert(j == i) by (nonlinear_arith)
            requires
                0 < step,
                i * step <= location - start < (i + 1) * step,
                j * step <= location - start < j * step + step,
        ;
    }
}

/// The memory location lies in the chunk.
pub open spec fn in_chunk(c: ZeroChunk, location: int) -> bool {
    c.start <= location < c.start + c.len
}

/// Clearing memory starts at its first byte and goes on just after each chunk until the end of the
/// memory is reached, and not beyond. Every chunk is as long as a frame allows.
pub proof fn law_memory_is_cleared_from_start_to_end(
    client: Client,
    start: u16,
    len: u16,
    zeros: Vec<ZeroChunk>,
)
    requires
        client.max_frame_data() > 0,
        start + len <= u16::MAX,
        call_ensures(Client::blank_memory, (&client, start, len), zeros),
    ensures
        zeros@.len() == 0 <==> len == 0,
        len > 0 ==> zeros@[0].start == start,
        forall|i: int|
            0 < i < zeros@.len() ==> (#[trigger] zeros@[i]).start == zeros@[i - 1].start
                + client.max_frame_data(),
        forall|i: int| 0 <= i < zeros@.len() ==> (#[trigger] zeros@[i]).start < start + len,
        len > 0 ==> start + len <= zeros@[zeros@.len() - 1].start + client.max_frame_data(),
        forall|i: int|
            0 <= i < zeros@.len() ==> (client.max_frame_data() - (#[trigger] zeros@[i]).len)
                % 0x1_0000 == 0,
        client.max_frame_data() <= u16::MAX ==> forall|i: int|
            0 <= i < zeros@.len() ==> (#[trigger] zeros@[i]).len == client.max_frame_data(),
{
    let step = client.max_frame_data() as int;
    assert forall|i: int| 0 <= i < zeros@.len() implies (#[trigger] zeros@[i]).start == start + i
        * step && zeros@[i].start < start + len by {
        lemma_chunk_count(len as int, step, i);
    }
    assert forall|i: int| 0 < i < zeros@.len() implies (#[trigger] zeros@[i]).start == zeros@[i
        - 1].start + step by {
        lemma_chunk_count(len as int, step, i - 1);
    }
    lemma_chunk_count(len as int, step, 0);
    lemma_chunk_count(len as int, step, chunk_count(len as int, step));
    if len > 0 {
        lemma_chunk_count(len as int, step, chunk_count(len as int, step) - 1);
    }
}

/// The memory that is cleared: the FMMUs, the sync managers, the system time, its offset and the
/// transmission delay.
pub open spec fn is_cleared(location: int) -> bool {
    ||| 0x600 <= location < 0x6ff
    ||| 0x800 <= location < 0x87f
    ||| 0x910 <= location < 0x918
    ||| 0x920 <= location < 0x928
    ||| 0x928 <= location < 0x92c
}

/// The slaves are first told to go to INIT and to forget errors. Then memory is cleared in the order
/// of its locations, from within the parts that have to be cleared. At the end the third parameter of
/// the clock control loop is written, and after it the first one.
pub proof fn law_reset_clears_memory_between_init_and_clock(client: Client, steps: Vec<ResetStep>)
    requires
        client.max_frame_data() > 0,
        call_ensures(Client::reset_slaves, (&client,), steps),
    ensures
        steps@.len() >= 8,
        steps@[0] matches ResetStep::Control(control) && control.state == SlaveState::Init
            && control.error && !control.id_request,
        steps@[steps@.len() - 2] matches ResetStep::Write { register, value } && register.location()
            == 0x934 && value == 0x0c00,
        steps@[steps@.len() - 1] matches ResetStep::Write { register, value } && register.location()
            == 0x930 && value == 0x1000,
        forall|i: int|
            1 <= i < steps@.len() - 2 ==> (#[trigger] steps@[i] matches ResetStep::Zeros(c)
                && is_cleared(c.start as int)),
        forall|i: int, j: int|
            1 <= i < j < steps@.len() - 2 ==> (#[trigger] steps@[i])->Zeros_0.start < (
            #[trigger] steps@[j])->Zeros_0.start,
{
    let step = client.max_frame_data() as int;
    let fmmus = clear(RegisterAddress::Fmmu0, 0xff, step);
    let sms = clear(RegisterAddress::Sm0, 0x7f, step);
    let time = clear(RegisterAddress::DcSystemTime, 8, step);
    let offset = clear(RegisterAddress::DcSystemTimeOffset, 8, step);
    let delay = clear(RegisterAddress::DcSystemTimeTransmissionDelay, 4, step);
    lemma_clear(RegisterAddress::Fmmu0, 0xff, step);
    lemma_clear(RegisterAddress::Sm0, 0x7f, step);
    lemma_clear(RegisterAddress::DcSystemTime, 8, step);
    lemma_clear(RegisterAddress::DcSystemTimeOffset, 8, step);
    lemma_clear(RegisterAddress::DcSystemTimeTransmissionDelay, 4, step);
    let a = 1 + fmmus.len();
    let b = a + sms.len();
    let c = b + time.len();
    let d = c + offset.len();
    let e = d + delay.len();
    assert(steps@.len() == e + 2);
    assert forall|i: int| 1 <= i < steps@.len() - 2 implies #[trigger] steps@[i] == (if i < a {
        fmmus[i - 1]
    } else if i < b {
        sms[i - a]
    } else if i < c {
        time[i - b]
    } else if i < d {
        offset[i - c]
    } else {
        delay[i - d]
    }) by {}
}

/// The steps that clear memory stay inside of it and go upwards.
proof fn lemma_clear(register: RegisterAddress, len: int, step: int)
    requires
        0 < len <= 0xff,
        0 < step <= usize::MAX,
        register.location() <= 0x1000,
    ensures
        clear(register, len, step).len() >= 1,
        forall|i: int|
            0 <= i < clear(register, len, step).len() ==> (#[trigger] clear(
                register,
                len,
                step,
            )[i] matches ResetStep::Zeros(c) && register.location() <= c.start
                < register.location() + len),
        forall|i: int, j: int|
            0 <= i < j < clear(register, len, step).len() ==> (#[trigger] clear(
                register,
                len,
                step,
            )[i])->Zeros_0.start < (#[trigger] clear(register, len, step)[j])->Zeros_0.start,
{
    let steps = clear(register, len, step);
    lemma_chunk_count(len, step, 0);
    assert forall|i: int| 0 <= i < steps.len() implies (#[trigger] steps[i] matches ResetStep::Zeros(
        c,
    ) && c.start == register.location() + i * step && i * step < len) by {
        lemma_chunk_count(len, step, i);
    }
    assert forall|i: int, j: int| 0 <= i < j < steps.len() implies (
    #[trigger] steps[i])->Zeros_0.start < (#[trigger] steps[j])->Zeros_0.start by {
        assert(i * step < j * step) by (nonlinear_arith)
            requires
                i < j,
                0 < step,
        ;
    }
}

/// Every byte of the memory that has to be cleared is cleared by some step, as long as the length of a
/// chunk fits its 16 bits.
pub proof fn law_reset_clears_every_byte(client: Client, steps: Vec<ResetStep>, location: int)
    requires
        0 < client.max_frame_data() <= u16::MAX,
        call_ensures(Client::reset_slaves, (&client,), steps),
        is_cleared(location),
    ensures
        exists|i: int|
            0 <= i < steps@.len() && (#[trigger] steps@[i] matches ResetStep::Zeros(c) && c.start
                <= location < c.start + c.len),
{
    let step = client.max_frame_data();
    let fmmus = clear(RegisterAddress::Fmmu0, 0xff, step as int);
    let sms = clear(RegisterAddress::Sm0, 0x7f, step as int);
    let time = clear(RegisterAddress::DcSystemTime, 8, step as int);
    let offset = clear(RegisterAddress::DcSystemTimeOffset, 8, step as int);
    if location < 0x6ff {
        let k = lemma_clear_covers(RegisterAddress::Fmmu0, 0xff, step, location);
        assert(steps@[1 + k] == fmmus[k]);
    } else if location < 0x87f {
        let k = lemma_clear_covers(RegisterAddress::Sm0, 0x7f, step, location);
        assert(steps@[1 + fmmus.len() + k] == sms[k]);
    } else if location < 0x918 {
        let k = lemma_clear_covers(RegisterAddress::DcSystemTime, 8, step, location);
        assert(steps@[1 + fmmus.len() + sms.len() + k] == time[k]);
    } else if location < 0x928 {
        let k = lemma_clear_covers(RegisterAddress::DcSystemTimeOffset, 8, step, location);
        assert(steps@[1 + fmmus.len() + sms.len() + time.len() + k] == offset[k]);
    } else {
        let delay = clear(RegisterAddress::DcSystemTimeTransmissionDelay, 4, step as int);
        let k = lemma_clear_covers(
            RegisterAddress::DcSystemTimeTransmissionDelay,
            4,
            step,
            location,
        );
        assert(steps@[1 + fmmus.len() + sms.len() + time.len() + offset.len() + k] == delay[k]);
    }
}

/// Some step clears the given byte of the memory from a register on.
proof fn lemma_clear_covers(register: RegisterAddress, len: u16, step: usize, location: int) -> (k: int)
    requires
        0 < step <= u16::MAX,
        register.location() + len <= u16::MAX,
        register.location() <= location < register.location() + len,
    ensures
        0 <= k < clear(register, len as int, step as int).len(),
        clear(register, len as int, step as int)[k] matches ResetStep::Zeros(c) && c.start <= location
            < c.start + c.len,
{
    law_chunks_cover_memory(register.location(), len, step, location);
    let all = chunks(register.location() as int, len as int, step as int);
    choose|k: int| 0 <= k < all.len() && #[trigger] in_chunk(all[k], location)
}

} // verus!

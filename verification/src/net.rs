//! The link between two ranks: its settings, its codes, and the agreement on what a step accepted.
use vstd::prelude::*;

verus! {

/// Entries per epoch of the host's timestamps, and what each is.
pub const CTS_STRIDE: usize = 5;

pub const CTS_READY: usize = 0;

pub const CTS_POSTED: usize = 1;

pub const CTS_CQE: usize = 2;

pub const CTS_PEERSEEN: usize = 3;

pub const CTS_RELEASED: usize = 4;

/// Epochs that timestamps are kept for.
pub const GTS_EPOCHS: usize = 4096;

/// Entries per epoch of the device's timestamps, and what each is.
pub const GTS_STRIDE: usize = 4;

pub const GTS_K1_IN: usize = 0;

pub const GTS_K1_OUT: usize = 1;

pub const GTS_K2_IN: usize = 2;

pub const GTS_K2_GO: usize = 3;

/// The native context of a link. Only its address is ever used.
pub struct NetCtx {
    pub address: usize,
}

/// A link to the other rank: rank 0 listens, rank 1 connects.
pub struct TpLink {
    pub ctx: NetCtx,
    /// Bytes of a ring slot.
    pub slot_bytes: usize,
}

/// Why a call on the link failed.
#[derive(Clone, Copy, Debug, PartialEq, Eq, Structural)]
pub enum LinkFault {
    /// The link was taken down.
    Aborted,
    /// The native code of the failure.
    Code(i32),
}

/// What a native return code says.
pub open spec fn outcome(rc: i32) -> Result<(), LinkFault> {
    if rc == 0 {
        Ok(())
    } else if rc == -2 {
        Err(LinkFault::Aborted)
    } else {
        Err(LinkFault::Code(rc))
    }
}

/// What a native return code says: of a flush, or of an exchange.
pub fn link_outcome(rc: i32) -> (r: Result<(), LinkFault>)
    ensures
        r == outcome(rc),
{
    if rc == 0 {
        Ok(())
    } else if rc == -2 {
        Err(LinkFault::Aborted)
    } else {
        Err(LinkFault::Code(rc))
    }
}

impl TpLink {
    /// Address of the native context.
    pub fn ctx_addr(&self) -> (a: usize)
        ensures
            a == self.ctx.address,
    {
        self.ctx.address
    }

    /// `n` elements of `size` bytes fit a slot.
    pub fn slot_holds(&self, n: usize, size: usize) -> (b: bool)
        ensures
            b == (n * size <= self.slot_bytes),
    {
        proof {
            assert(0 <= n * size) by (nonlinear_arith);
        }
        match n.checked_mul(size) {
            Some(bytes) => bytes <= self.slot_bytes,
            None => false,
        }
    }
}

/// What a process knows of its link: the address of the native context, zero where there is none.
pub struct LinkRegister {
    pub ctx: usize,
}

/// What tracing sets on the link: no injected delay, timestamps on.
#[derive(Clone, Copy, Debug, PartialEq, Eq, Structural)]
pub struct BenchSettings {
    pub inject_delay_us_max: u32,
    pub timestamps: bool,
}

/// Turns tracing on and registers the link. Called before the proxy starts.
pub fn trace_enable(reg: &mut LinkRegister, link: &TpLink) -> (s: BenchSettings)
    ensures
        final(reg).ctx == link.ctx.address,
        s == (BenchSettings { inject_delay_us_max: 0, timestamps: true }),
{
    reg.ctx = link.ctx_addr();
    BenchSettings { inject_delay_us_max: 0, timestamps: true }
}

impl LinkRegister {
    /// No link.
    pub fn new() -> (r: LinkRegister)
        ensures
            r.ctx == 0,
    {
        LinkRegister { ctx: 0 }
    }

    /// The registered link.
    pub fn link(&self) -> (r: Option<usize>)
        ensures
            r == (if self.ctx == 0 {
                None
            } else {
                Some(self.ctx)
            }),
    {
        if self.ctx == 0 {
            None
        } else {
            Some(self.ctx)
        }
    }
}

// ---- agreement ----

/// The word that a rank publishes for a step: 24 bits of the step, 8 bits of how many tokens it accepted,
/// 32 bits of their hash. Equal counts alone would not do: different tokens drift apart just as well.
pub open spec fn agreement_word(step: u64, accepted: u8, hash: u32) -> u64 {
    ((step & 0xFF_FFFF) << 40) | ((accepted as u64) << 32) | (hash as u64)
}

/// Bits of the word that name the step.
pub const STEP_MASK: u64 = 0xFFFF_FF00_0000_0000;

/// The word that a rank publishes for a step.
pub fn agreement(step: u64, accepted: u8, hash: u32) -> (w: u64)
    ensures
        w == agreement_word(step, accepted, hash),
{
    ((step & 0xFF_FFFF) << 40) | ((accepted as u64) << 32) | (hash as u64)
}

/// The word's step bits, which the other rank's word must match.
pub fn step_bits(step: u64) -> (w: u64)
    ensures
        w == (step & 0xFF_FFFF) << 40,
{
    (step & 0xFF_FFFF) << 40
}

/// What the other rank published; nothing where the link was taken down.
pub open spec fn peer_of(word: u64) -> Option<(u8, u32)> {
    if word == 0 {
        None
    } else {
        Some((((word >> 32) & 0xFF) as u8, (word & 0xFFFF_FFFF) as u32))
    }
}

/// What the other rank published.
pub fn peer(word: u64) -> (r: Option<(u8, u32)>)
    ensures
        r == peer_of(word),
{
    if word == 0 {
        None
    } else {
        proof {
            assert((word >> 32) & 0xFF <= 0xFF) by (bit_vector);
            assert(word & 0xFFFF_FFFF <= 0xFFFF_FFFF) by (bit_vector);
        }
        Some((((word >> 32) & 0xFF) as u8, (word & 0xFFFF_FFFF) as u32))
    }
}

/// A published word says what was put into it, and its step bits are the step's, unless the word is the
/// zero that stands for a link taken down.
pub proof fn law_agreement_round_trips(step: u64, accepted: u8, hash: u32)
    ensures
        agreement_word(step, accepted, hash) & STEP_MASK == (step & 0xFF_FFFF) << 40,
        agreement_word(step, accepted, hash) != 0 ==> peer_of(agreement_word(step, accepted, hash))
            == Some((accepted, hash)),
        agreement_word(step, accepted, hash) == 0 ==> accepted == 0 && hash == 0,
{
    let (a, h) = (accepted as u64, hash as u64);
    let w = ((step & 0xFF_FFFF) << 40) | (a << 32) | h;
    assert(w & 0xFFFF_FF00_0000_0000 == (step & 0xFF_FFFF) << 40 && (w >> 32) & 0xFF == a && w
        & 0xFFFF_FFFF == h && (w == 0 ==> a == 0 && h == 0)) by (bit_vector)
        requires
            a <= 0xFF,
            h <= 0xFFFF_FFFF,
            w == ((step & 0xFF_FFFF) << 40) | (a << 32) | h,
    ;
}

} // verus!

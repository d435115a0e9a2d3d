//! The bit cells that a phase locked loop emits for a flux stream, given how many clock
//! periods it counted for each flux transition: for each transition, a zero for each period
//! but the last and a one, with the transition's class, the counters of a decode, and the
//! positions of the address markers found in the bits.
use vstd::prelude::*;
use crate::flux::FluxTransition;

verus! {

/// What the bit emission has produced so far.
pub struct PllBitsView {
    pub bits: Seq<bool>,
    /// The last 64 bits emitted, the latest lowest.
    pub reg: u64,
    pub transitions: Seq<FluxTransition>,
    pub markers: Seq<usize>,
    pub short: u32,
    pub medium: u32,
    pub long: u32,
    pub too_short: u32,
    pub too_long: u32,
    pub too_slow_bits: u32,
}

/// What the bit emission of a stream gives.
pub enum PllRun {
    Done(PllBitsView),
    /// A counter would overflow, or a marker position underflow: the decode panics.
    Panics,
}

/// The state before any transition.
pub open spec fn pll_bits_initial() -> PllBitsView {
    PllBitsView {
        bits: Seq::empty(),
        reg: 0,
        transitions: Seq::empty(),
        markers: Seq::empty(),
        short: 0,
        medium: 0,
        long: 0,
        too_short: 0,
        too_long: 0,
        too_slow_bits: 0,
    }
}

/// The register after `k` zeros are shifted in.
pub open spec fn shift_zeros(r: u64, k: nat) -> u64
    decreases k,
{
    if k == 0 {
        r
    } else {
        shift_zeros(r, (k - 1) as nat) << 1u64
    }
}

/// Emit the bits of a transition of `l` periods: `l - 1` zeros and a one (nothing for none).
pub open spec fn emit(st: PllBitsView, l: u64) -> PllBitsView {
    if l > 0 {
        PllBitsView {
            bits: st.bits + Seq::new((l - 1) as nat, |i: int| false) + seq![true],
            reg: (shift_zeros(st.reg, (l - 1) as nat) << 1u64) | 1u64,
            ..st
        }
    } else {
        st
    }
}

/// The MFM bits of one transition of `l` periods: under two periods is too short, over four
/// too long (the periods beyond four counted as too slow bits); two, three and four periods
/// are a short, medium and long transition. After its bits, a register showing the sync
/// pattern `4489 4489 4489` marks the start of the last 64 bits.
pub open spec fn mfm_flux_step(st: PllBitsView, l: u64) -> PllRun {
    if (l < 2 && st.too_short == u32::MAX) || (l > 4 && (st.too_long == u32::MAX
        || st.too_slow_bits + ((l - 4) as u32) > u32::MAX)) || (l == 2 && st.short == u32::MAX)
        || (l == 3 && st.medium == u32::MAX) || (l == 4 && st.long == u32::MAX) {
        PllRun::Panics
    } else {
        let st1 = PllBitsView {
            too_short: if l < 2 { (st.too_short + 1) as u32 } else { st.too_short },
            too_long: if l > 4 { (st.too_long + 1) as u32 } else { st.too_long },
            too_slow_bits: if l > 4 { (st.too_slow_bits + ((l - 4) as u32)) as u32 } else { st.too_slow_bits },
            short: if l == 2 { (st.short + 1) as u32 } else { st.short },
            medium: if l == 3 { (st.medium + 1) as u32 } else { st.medium },
            long: if l == 4 { (st.long + 1) as u32 } else { st.long },
            transitions: if l == 2 {
                st.transitions.push(FluxTransition::Short)
            } else if l == 3 {
                st.transitions.push(FluxTransition::Medium)
            } else if l == 4 {
                st.transitions.push(FluxTransition::Long)
            } else {
                st.transitions
            },
            ..st
        };
        let st2 = emit(st1, l);
        if st2.reg & 0xFFFF_FFFF_FFFF_0000u64 == 0x4489_4489_4489_0000u64 {
            if st2.bits.len() < 64 {
                PllRun::Panics
            } else {
                PllRun::Done(PllBitsView { markers: st2.markers.push((st2.bits.len() - 64) as usize), ..st2 })
            }
        } else {
            PllRun::Done(st2)
        }
    }
}

/// The FM bits of one transition of `l` periods: none is too short, one a short and two a
/// long transition; more is too long, with the periods beyond four counted as too slow bits
/// (three periods underflow that count). After its bits, a register showing the FM address
/// mark clock and data pattern marks the start of the last 16 bits.
pub open spec fn fm_flux_step(st: PllBitsView, l: u64) -> PllRun {
    if (l == 0 && st.too_short == u32::MAX) || (l == 1 && st.short == u32::MAX) || (l == 2 && st.long == u32::MAX)
        || (l >= 3 && (st.too_long == u32::MAX || l == 3 || st.too_slow_bits + ((l - 4) as u32) > u32::MAX)) {
        PllRun::Panics
    } else {
        let st1 = PllBitsView {
            too_short: if l == 0 { (st.too_short + 1) as u32 } else { st.too_short },
            short: if l == 1 { (st.short + 1) as u32 } else { st.short },
            long: if l == 2 { (st.long + 1) as u32 } else { st.long },
            too_long: if l >= 3 { (st.too_long + 1) as u32 } else { st.too_long },
            too_slow_bits: if l >= 3 { (st.too_slow_bits + ((l - 4) as u32)) as u32 } else { st.too_slow_bits },
            ..st
        };
        let st2 = emit(st1, l);
        if st2.reg & 0xAAAA_AAAA_AAAA_AAAAu64 == 0xAAAA_AAAA_AAAA_A02Au64 {
            if st2.bits.len() < 16 {
                PllRun::Panics
            } else {
                PllRun::Done(PllBitsView { markers: st2.markers.push((st2.bits.len() - 16) as usize), ..st2 })
            }
        } else {
            PllRun::Done(st2)
        }
    }
}

/// The bit emission for the first `n` transitions of `ls`, MFM or FM.
pub open spec fn pll_bits_run(ls: Seq<u64>, n: nat, mfm: bool) -> PllRun
    decreases n,
{
    if n == 0 {
        PllRun::Done(pll_bits_initial())
    } else {
        match pll_bits_run(ls, (n - 1) as nat, mfm) {
            PllRun::Panics => PllRun::Panics,
            PllRun::Done(st) => if mfm { mfm_flux_step(st, ls[n - 1]) } else { fm_flux_step(st, ls[n - 1]) },
        }
    }
}

/// What the bit emission of a stream gives.
pub struct PllBits {
    pub bits: Vec<bool>,
    pub transitions: Vec<FluxTransition>,
    pub markers: Vec<usize>,
    pub short: u32,
    pub medium: u32,
    pub long: u32,
    pub too_short: u32,
    pub too_long: u32,
    pub too_slow_bits: u32,
}

/// The emission state of `b` with register `reg`.
pub open spec fn pll_bits_view(b: PllBits, reg: u64) -> PllBitsView {
    PllBitsView {
        bits: b.bits@,
        reg,
        transitions: b.transitions@,
        markers: b.markers@,
        short: b.short,
        medium: b.medium,
        long: b.long,
        too_short: b.too_short,
        too_long: b.too_long,
        too_slow_bits: b.too_slow_bits,
    }
}

fn emit_exec(b: &mut PllBits, reg: &mut u64, l: u64)
    ensures
        pll_bits_view(*final(b), *final(reg)) == emit(pll_bits_view(*old(b), *old(reg)), l),
{
    if l == 0 {
        return;
    }
    let ghost before = b.bits@;
    let ghost r0 = *reg;
    let mut k: u64 = 0;
    while k < l - 1
        invariant
            l > 0,
            k <= l - 1,
            b.bits@ == before + Seq::new(k as nat, |i: int| false),
            *reg == shift_zeros(r0, k as nat),
            b.transitions@ == old(b).transitions@,
            b.markers@ == old(b).markers@,
            b.short == old(b).short && b.medium == old(b).medium && b.long == old(b).long,
            b.too_short == old(b).too_short && b.too_long == old(b).too_long && b.too_slow_bits == old(b).too_slow_bits,
        decreases l - 1 - k,
    {
        b.bits.push(false);
        *reg = *reg << 1u64;
        k += 1;
        assert(b.bits@ =~= before + Seq::new(k as nat, |i: int| false));
    }
    b.bits.push(true);
    *reg = (*reg << 1u64) | 1u64;
    assert(b.bits@ =~= before + Seq::new((l - 1) as nat, |i: int| false) + seq![true]);
}

fn mfm_step_exec(b: &mut PllBits, reg: &mut u64, l: u64) -> (ok: bool)
    ensures
        match mfm_flux_step(pll_bits_view(*old(b), *old(reg)), l) {
            PllRun::Done(st) => ok && pll_bits_view(*final(b), *final(reg)) == st,
            PllRun::Panics => !ok,
        },
{
    if l < 2 {
        if b.too_short == u32::MAX {
            return false;
        }
        b.too_short = b.too_short + 1;
    } else if l > 4 {
        if b.too_long == u32::MAX || (l - 4) as u32 > u32::MAX - b.too_slow_bits {
            return false;
        }
        b.too_long = b.too_long + 1;
        b.too_slow_bits = b.too_slow_bits + (l - 4) as u32;
    }
    if l == 2 {
        if b.short == u32::MAX {
            return false;
        }
        b.short = b.short + 1;
        b.transitions.push(FluxTransition::Short);
    } else if l == 3 {
        if b.medium == u32::MAX {
            return false;
        }
        b.medium = b.medium + 1;
        b.transitions.push(FluxTransition::Medium);
    } else if l == 4 {
        if b.long == u32::MAX {
            return false;
        }
        b.long = b.long + 1;
        b.transitions.push(FluxTransition::Long);
    }
    emit_exec(b, reg, l);
    if *reg & 0xFFFF_FFFF_FFFF_0000u64 == 0x4489_4489_4489_0000u64 {
        if b.bits.len() < 64 {
            return false;
        }
        let at = b.bits.len() - 64;
        b.markers.push(at);
    }
    true
}

fn fm_step_exec(b: &mut PllBits, reg: &mut u64, l: u64) -> (ok: bool)
    ensures
        match fm_flux_step(pll_bits_view(*old(b), *old(reg)), l) {
            PllRun::Done(st) => ok && pll_bits_view(*final(b), *final(reg)) == st,
            PllRun::Panics => !ok,
        },
{
    if l == 0 {
        if b.too_short == u32::MAX {
            return false;
        }
        b.too_short = b.too_short + 1;
    } else if l == 1 {
        if b.short == u32::MAX {
            return false;
        }
        b.short = b.short + 1;
    } else if l == 2 {
        if b.long == u32::MAX {
            return false;
        }
        b.long = b.long + 1;
    } else {
        if b.too_long == u32::MAX || l == 3 || (l - 4) as u32 > u32::MAX - b.too_slow_bits {
            return false;
        }
        b.too_long = b.too_long + 1;
        b.too_slow_bits = b.too_slow_bits + (l - 4) as u32;
    }
    emit_exec(b, reg, l);
    if *reg & 0xAAAA_AAAA_AAAA_AAAAu64 == 0xAAAA_AAAA_AAAA_A02Au64 {
        if b.bits.len() < 16 {
            return false;
        }
        let at = b.bits.len() - 16;
        b.markers.push(at);
    }
    true
}

/// Emit the bits of a stream whose transitions lasted `lengths` clock periods, MFM or FM
/// (see [pll_bits_run]). `None` where the decode would panic: a counter overflowing, a marker
/// position underflowing, or an FM transition of three periods.
pub fn decode_flux_lengths(lengths: &[u64], mfm: bool) -> (r: Option<PllBits>)
    ensures
        match pll_bits_run(lengths@, lengths@.len(), mfm) {
            PllRun::Done(st) => r matches Some(b) && pll_bits_view(b, st.reg) == st,
            PllRun::Panics => r is None,
        },
{
    let mut b = PllBits {
        bits: Vec::new(),
        transitions: Vec::new(),
        markers: Vec::new(),
        short: 0,
        medium: 0,
        long: 0,
        too_short: 0,
        too_long: 0,
        too_slow_bits: 0,
    };
    let mut reg: u64 = 0;
    let mut i: usize = 0;
    assert(pll_bits_view(b, reg) == pll_bits_initial());
    while i < lengths.len()
        invariant
            i <= lengths@.len(),
            pll_bits_run(lengths@, i as nat, mfm) == PllRun::Done(pll_bits_view(b, reg)),
        decreases lengths.len() - i,
    {
        let ok = if mfm {
            mfm_step_exec(&mut b, &mut reg, lengths[i])
        } else {
            fm_step_exec(&mut b, &mut reg, lengths[i])
        };
        if !ok {
            proof {
                lemma_pll_panics_stay(lengths@, (i + 1) as nat, lengths@.len(), mfm);
            }
            return None;
        }
        i += 1;
    }
    Some(b)
}

/// Once the bit emission panics, it has panicked for every longer prefix.
proof fn lemma_pll_panics_stay(ls: Seq<u64>, n: nat, m: nat, mfm: bool)
    requires
        n <= m,
        pll_bits_run(ls, n, mfm) is Panics,
    ensures
        pll_bits_run(ls, m, mfm) is Panics,
    decreases m - n,
{
    if n < m {
        lemma_pll_panics_stay(ls, n, (m - 1) as nat, mfm);
    }
}

} // verus!

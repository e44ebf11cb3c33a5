//! Geometry of the packet-buffer pool: slot stride, region size and the
//! placement of each slot inside one contiguous, page-aligned region.

use vstd::prelude::*;

verus! {

/// Bytes of per-buffer metadata at the start of every slot.
pub const BUFFER_HEADER_SIZE: usize = 128;

/// Bytes reserved in front of the payload for prepending protocol headers.
pub const HEADROOM_SIZE: usize = 128;

/// The hardware page size, the usual alignment of the pool's base address.
pub const PAGE_SIZE: usize = 4096;

/// Buffer lengths are 16-bit in the device layer: headroom plus payload
/// must stay within this bound.
pub const MAX_DATA_ROOM: usize = 65535;

/// Two to the power `k`.
pub open spec fn pow2(k: nat) -> nat
    decreases k,
{
    if k == 0 {
        1
    } else {
        2 * pow2((k - 1) as nat)
    }
}

pub open spec fn is_power_of_two(x: int) -> bool {
    exists|k: nat| pow2(k) == x
}

/// Bytes a slot needs for header, headroom and `payload` bytes of frame.
pub open spec fn slot_need(payload: int) -> int {
    BUFFER_HEADER_SIZE + HEADROOM_SIZE + payload
}

/// The first of `p, 2p, 4p, ...` that is at least `n`.
pub open spec fn double_until(p: nat, n: nat) -> nat
    decreases (if p < n { n - p } else { 0 }),
{
    if p == 0 || p >= n {
        p
    } else {
        double_until(2 * p, n)
    }
}

/// The stride chosen for a payload size: the smallest power of two that
/// holds header, headroom and payload.
pub open spec fn stride_for(payload: nat) -> nat {
    double_until(1, slot_need(payload as int) as nat)
}

/// What an aligned allocation of `size` bytes needs: a power-of-two
/// alignment, and a size that, rounded up to it, stays within `isize::MAX`.
pub open spec fn allocatable(size: int, alignment: int) -> bool {
    &&& is_power_of_two(alignment)
    &&& size + alignment <= isize::MAX + 1
}

/// Total bytes of a region for `count` slots of `stride` bytes: the extra
/// alignment unit absorbs the rounding of the base address.
pub open spec fn region_bytes(count: int, stride: int, alignment: int) -> int {
    count * stride + alignment
}

/// `x` rounded up to a multiple of `alignment`.
pub open spec fn round_up(x: int, alignment: int) -> int {
    if x % alignment == 0 {
        x
    } else {
        x - x % alignment + alignment
    }
}

pub proof fn lemma_pow2_positive(k: nat)
    ensures
        pow2(k) >= 1,
    decreases k,
{
    if k > 0 {
        lemma_pow2_positive((k - 1) as nat);
    }
}

pub proof fn lemma_pow2_adds(a: nat, b: nat)
    ensures
        pow2(a + b) == pow2(a) * pow2(b),
    decreases b,
{
    if b > 0 {
        let b1 = (b - 1) as nat;
        lemma_pow2_adds(a, b1);
        assert(a + b1 + 1 == a + b);
        assert(pow2(a + b) == 2 * pow2(a + b1));
        assert(pow2(b) == 2 * pow2(b1));
        let x = pow2(a) as int;
        let y = pow2(b1) as int;
        assert(x * (2 * y) == 2 * (x * y)) by (nonlinear_arith);
    } else {
        assert(pow2(0) == 1);
        assert(a + b == a);
    }
}

pub proof fn lemma_pow2_monotone(a: nat, b: nat)
    requires
        a <= b,
    ensures
        pow2(a) <= pow2(b),
    decreases b - a,
{
    if a < b {
        lemma_pow2_monotone(a, (b - 1) as nat);
        lemma_pow2_positive((b - 1) as nat);
    }
}

/// Of two powers of two, the smaller divides the larger.
pub proof fn lemma_pow2_divides(x: int, y: int)
    requires
        is_power_of_two(x),
        is_power_of_two(y),
        x <= y,
    ensures
        y % x == 0,
{
    let j = choose|j: nat| pow2(j) == x;
    let k = choose|k: nat| pow2(k) == y;
    if k < j {
        lemma_pow2_monotone(k, j);
        lemma_pow2_monotone((k + 1) as nat, j);
        lemma_pow2_positive(k);
    }
    assert(j <= k);
    lemma_pow2_adds(j, (k - j) as nat);
    lemma_pow2_positive(j);
    let q = pow2((k - j) as nat) as int;
    assert(y == x * q);
    assert((x * q) % x == 0) by (nonlinear_arith)
        requires
            x >= 1,
    ;
}

/// `double_until(p, n)`, started from a power of two, is the smallest power
/// of two from `p` on that reaches `n`.
pub proof fn lemma_double_until(p: nat, n: nat)
    requires
        is_power_of_two(p as int),
        n >= 1,
    ensures
        is_power_of_two(double_until(p, n) as int),
        double_until(p, n) >= n,
        double_until(p, n) >= p,
        double_until(p, n) == p || double_until(p, n) < 2 * n,
    decreases (if p < n { n - p } else { 0 }),
{
    let k = choose|k: nat| pow2(k) == p;
    lemma_pow2_positive(k);
    if p < n {
        assert(pow2(k + 1) == 2 * p);
        lemma_double_until(2 * p, n);
    }
}

/// The stride of a payload holds header, headroom and payload, is a power of
/// two, and is the smallest such: half of it would not hold them.
pub proof fn lemma_stride_for(payload: nat)
    ensures
        is_power_of_two(stride_for(payload) as int),
        stride_for(payload) >= slot_need(payload as int),
        stride_for(payload) < 2 * slot_need(payload as int),
{
    assert(pow2(0) == 1);
    lemma_double_until(1, slot_need(payload as int) as nat);
}

/// Of `x` strictly between two consecutive powers of two, `x` is none.
proof fn lemma_between_powers(x: int, k: nat)
    requires
        pow2(k) < x < 2 * pow2(k),
    ensures
        !is_power_of_two(x),
{
    if is_power_of_two(x) {
        let j = choose|j: nat| pow2(j) == x;
        if j <= k {
            lemma_pow2_monotone(j, k);
        } else {
            lemma_pow2_monotone(k + 1, j);
            assert(pow2(k + 1) == 2 * pow2(k));
        }
    }
}

/// Whether `x` is a power of two.
pub fn check_power_of_two(x: usize) -> (r: bool)
    ensures
        r == is_power_of_two(x as int),
{
    let mut p: usize = 1;
    let ghost mut k: nat = 0;
    assert(pow2(0) == 1);
    while p < x
        invariant
            1 <= p,
            p == pow2(k),
            k == 0 || pow2((k - 1) as nat) < x,
        decreases (if p < x { x - p } else { 0 }),
    {
        if p > usize::MAX / 2 {
            proof {
                lemma_between_powers(x as int, k);
            }
            return false;
        }
        assert(pow2(k + 1) == 2 * pow2(k));
        p = p * 2;
        proof {
            k = k + 1;
        }
    }
    if p == x {
        true
    } else {
        proof {
            if k == 0 {
                if is_power_of_two(x as int) {
                    let j = choose|j: nat| pow2(j) == x;
                    lemma_pow2_positive(j);
                }
            } else {
                assert(pow2(k) == 2 * pow2((k - 1) as nat));
                lemma_between_powers(x as int, (k - 1) as nat);
            }
        }
        false
    }
}

/// Why a pool cannot be built.
#[derive(Clone, Copy, Debug, PartialEq, Eq, Structural)]
pub enum PoolError {
    /// The platform cannot provide a region of this size and alignment.
    Allocation,
    /// The slots cannot be carved or registered, e.g. a payload too large
    /// for the device layer's buffer length.
    Population,
}

/// The largest payload a slot may be asked to hold.
pub const MAX_PAYLOAD: usize = MAX_DATA_ROOM - HEADROOM_SIZE;

/// The stride for `payload` bytes of frame: the smallest power of two that
/// holds the buffer header, the headroom and the payload.
pub fn choose_stride(payload: usize) -> (r: Result<usize, PoolError>)
    ensures
        payload <= MAX_PAYLOAD ==> r == Ok::<usize, PoolError>(stride_for(payload as nat) as usize),
        payload > MAX_PAYLOAD ==> r == Err::<usize, PoolError>(PoolError::Population),
{
    if payload > MAX_PAYLOAD {
        return Err(PoolError::Population);
    }
    let need: usize = BUFFER_HEADER_SIZE + HEADROOM_SIZE + payload;
    let mut p: usize = 1;
    assert(pow2(0) == 1);
    while p < need
        invariant
            payload <= MAX_PAYLOAD,
            need == slot_need(payload as int),
            1 <= p < 2 * need,
            double_until(p as nat, need as nat) == stride_for(payload as nat),
        decreases (if p < need { need - p } else { 0 }),
    {
        p = p * 2;
    }
    Ok(p)
}

/// Total region bytes, base alignment and slot geometry of a pool.
pub struct PoolLayout {
    /// Number of slots.
    pub slot_count: u32,
    /// Bytes from one slot's start to the next.
    pub stride: usize,
    /// Alignment of the base address.
    pub alignment: usize,
    /// Bytes to request from the memory subsystem.
    pub region_size: usize,
}

/// The layout that planning produces for a valid request.
pub open spec fn planned(count: u32, payload: nat, alignment: usize) -> PoolLayout {
    PoolLayout {
        slot_count: count,
        stride: stride_for(payload) as usize,
        alignment,
        region_size: region_bytes(count as int, stride_for(payload) as int, alignment as int)
            as usize,
    }
}

impl PoolLayout {
    pub open spec fn wf(&self) -> bool {
        &&& self.slot_count >= 1
        &&& is_power_of_two(self.stride as int)
        &&& self.stride >= BUFFER_HEADER_SIZE + HEADROOM_SIZE
        &&& self.alignment >= 1
        &&& self.region_size == region_bytes(
            self.slot_count as int,
            self.stride as int,
            self.alignment as int,
        )
        &&& allocatable(self.region_size as int, self.alignment as int)
    }

    /// Plans a pool of `count` slots, each holding `payload` bytes of frame,
    /// in one region whose base is aligned to `alignment`.
    pub fn plan(count: u32, payload: usize, alignment: usize) -> (r: Result<PoolLayout, PoolError>)
        requires
            count >= 1,
        ensures
            !is_power_of_two(alignment as int) ==> r == Err::<PoolLayout, PoolError>(
                PoolError::Allocation,
            ),
            is_power_of_two(alignment as int) && payload > MAX_PAYLOAD ==> r == Err::<
                PoolLayout,
                PoolError,
            >(PoolError::Population),
            is_power_of_two(alignment as int) && payload <= MAX_PAYLOAD && !allocatable(
                region_bytes(count as int, stride_for(payload as nat) as int, alignment as int),
                alignment as int,
            ) ==> r == Err::<PoolLayout, PoolError>(PoolError::Allocation),
            is_power_of_two(alignment as int) && payload <= MAX_PAYLOAD && allocatable(
                region_bytes(count as int, stride_for(payload as nat) as int, alignment as int),
                alignment as int,
            ) ==> r == Ok::<PoolLayout, PoolError>(planned(count, payload as nat, alignment)),
            r matches Ok(l) ==> l.wf(),
    {
        if !check_power_of_two(alignment) {
            return Err(PoolError::Allocation);
        }
        let stride = match choose_stride(payload) {
            Ok(s) => s,
            Err(e) => {
                return Err(e);
            },
        };
        proof {
            lemma_stride_for(payload as nat);
            let j = choose|j: nat| pow2(j) == alignment;
            lemma_pow2_positive(j);
        }
        let slots_bytes = match (count as usize).checked_mul(stride) {
            Some(b) => b,
            None => {
                return Err(PoolError::Allocation);
            },
        };
        let region_size = match slots_bytes.checked_add(alignment) {
            Some(b) => b,
            None => {
                return Err(PoolError::Allocation);
            },
        };
        if region_size > isize::MAX as usize || alignment > (isize::MAX as usize - region_size)
            + 1 {
            return Err(PoolError::Allocation);
        }
        Ok(PoolLayout { slot_count: count, stride, alignment, region_size })
    }

    /// Bytes of frame each slot can hold behind its header and headroom.
    pub fn payload_capacity(&self) -> (r: usize)
        requires
            self.wf(),
        ensures
            r == self.stride - BUFFER_HEADER_SIZE - HEADROOM_SIZE,
    {
        self.stride - BUFFER_HEADER_SIZE - HEADROOM_SIZE
    }

    /// Bytes from the start `raw` of the allocated region to the aligned
    /// base of the first slot.
    pub fn base_padding(&self, raw: usize) -> (r: usize)
        requires
            self.wf(),
        ensures
            r < self.alignment,
            raw + r == round_up(raw as int, self.alignment as int),
            (raw + r) % (self.alignment as int) == 0,
    {
        let rem = raw % self.alignment;
        if rem == 0 {
            0
        } else {
            let ghost a = self.alignment as int;
            let ghost x = raw as int;
            let ghost m = rem as int;
            assert((x - m + a) % a == 0) by (nonlinear_arith)
                requires
                    a >= 1,
                    m == x % a,
            ;
            self.alignment - rem
        }
    }

    /// Address of slot `i` in a region allocated at `raw`: the aligned base
    /// plus `i` strides. The slot lies wholly inside the region.
    pub fn slot_address(&self, raw: usize, i: u32) -> (r: usize)
        requires
            self.wf(),
            raw + self.region_size <= usize::MAX,
            i < self.slot_count,
        ensures
            r == round_up(raw as int, self.alignment as int) + i * self.stride,
            raw <= r,
            r + self.stride <= raw + self.region_size,
    {
        let pad = self.base_padding(raw);
        let ghost n = self.slot_count as int;
        let ghost s = self.stride as int;
        let ghost k = i as int;
        assert(k * s + s <= n * s) by (nonlinear_arith)
            requires
                0 <= k < n,
                s >= 0,
        ;
        assert(0 <= k * s) by (nonlinear_arith)
            requires
                0 <= k,
                s >= 0,
        ;
        raw + pad + (i as usize) * self.stride
    }
}

/// Pool sizing: a pool planned for `count` slots of `payload` bytes takes
/// `count` strides plus one alignment unit; its stride holds header,
/// headroom and payload, and is the smallest power of two that does; where
/// two or more slots fit in one alignment unit they fill it with no
/// remainder, and a stride of one unit or more is a whole number of units.
pub proof fn law_pool_sizing(count: u32, payload: usize, alignment: usize)
    requires
        count >= 1,
        is_power_of_two(alignment as int),
        payload <= MAX_PAYLOAD,
        allocatable(
            region_bytes(count as int, stride_for(payload as nat) as int, alignment as int),
            alignment as int,
        ),
    ensures
        ({
            let l = planned(count, payload as nat, alignment);
            &&& l.wf()
            &&& l.region_size == count * l.stride + alignment
            &&& l.stride >= slot_need(payload as int)
            &&& l.stride < 2 * slot_need(payload as int)
            &&& 2 * l.stride <= alignment ==> alignment % l.stride == 0
            &&& l.stride >= alignment ==> l.stride % alignment == 0
        }),
{
    lemma_stride_for(payload as nat);
    let j = choose|j: nat| pow2(j) == alignment;
    lemma_pow2_positive(j);
    let s = stride_for(payload as nat) as int;
    if s <= alignment {
        lemma_pow2_divides(s, alignment as int);
    } else {
        lemma_pow2_divides(alignment as int, s);
    }
    if s == alignment {
        lemma_pow2_divides(alignment as int, s);
    }
}

} // verus!

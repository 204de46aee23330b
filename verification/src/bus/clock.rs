use vstd::prelude::*;

verus! {

/// System clock. Counts cycles with half T-cycle precision.
pub struct Clock {

    /// Half T-cycles count since system start. Odd on rising, even on falling.
    htcycles: u64,

}

impl View for Clock {
    type V = u64;

    closed spec fn view(&self) -> u64 {
        self.htcycles
    }
}

/// Offset in half t-cycles to the `n`th t-cycle rising edge after `htcycles`
pub open spec fn spec_to_rising(htcycles: u64, n: u64) -> int {
    (2 * n) % 0x1_0000_0000_0000_0000 - (1 - htcycles % 2)
}

/// Offset in half t-cycles to the `n`th t-cycle falling edge after `htcycles`
pub open spec fn spec_to_falling(htcycles: u64, n: u64) -> int {
    (2 * n) % 0x1_0000_0000_0000_0000 - htcycles % 2
}

proof fn lemma_edges(n: u64, h: u64)
    by (bit_vector)
    ensures
        n << 1 == ((2 * n) % 0x1_0000_0000_0000_0000) as u64,
        !h & 1 == 1 - h % 2,
        h & 1 == h % 2,
{
}

impl Clock {

    /// Clock at the system start
    pub fn new() -> (r: Clock)
        ensures
            r@ == 0,
    {
        Clock { htcycles: 0 }
    }

    /// Set clock in half t-cycles
    pub fn set(&mut self, val: u64)
        ensures
            final(self)@ == val,
    {
        self.htcycles = val;
    }

    /// Get clock in half t-cycles
    pub fn get(&self) -> (r: u64)
        ensures
            r == self@,
    {
        self.htcycles
    }

    /// Get offset in half t-cycles to the next Nth t-cycle rising edge
    pub fn to_rising(&self, n: u64) -> (r: u64)
        requires
            spec_to_rising(self@, n) >= 0,
        ensures
            r == spec_to_rising(self@, n),
    {
        proof { lemma_edges(n, self.htcycles); }
        (n << 1) - (!self.get() & 1)
    }

    /// Get offset in half t-cycles to the next Nth t-cycle falling edge
    pub fn to_falling(&self, n: u64) -> (r: u64)
        requires
            spec_to_falling(self@, n) >= 0,
        ensures
            r == spec_to_falling(self@, n),
    {
        proof { lemma_edges(n, self.htcycles); }
        (n << 1) - (self.get() & 1)
    }

}

impl Default for Clock {
    fn default() -> (r: Clock)
        ensures
            r@ == 0,
    {
        Clock::new()
    }
}

/// Offset to the `n`th rising edge from the clock value `htcycles`
pub fn rising(htcycles: u64, n: u64) -> (r: u64)
    requires
        1 <= n < 0x8000_0000_0000_0000,
    ensures
        r == spec_to_rising(htcycles, n),
        r >= 1,
        (htcycles + r) % 2 == 1,
{
    let clock = Clock { htcycles };
    clock.to_rising(n)
}

/// Offset to the `n`th falling edge from the clock value `htcycles`
pub fn falling(htcycles: u64, n: u64) -> (r: u64)
    requires
        1 <= n < 0x8000_0000_0000_0000,
    ensures
        r == spec_to_falling(htcycles, n),
        r >= 1,
        (htcycles + r) % 2 == 0,
{
    let clock = Clock { htcycles };
    clock.to_falling(n)
}

/// Law: the edge offsets land on the edges that the clock's parity names,
/// odd counts being rising edges and even counts falling ones, the `n`th edge being `n - 1` t-cycles after the first
pub proof fn lemma_edge_parity(htcycles: u64, n: u64)
    requires
        1 <= n < 0x8000_0000_0000_0000,
    ensures
        (htcycles + spec_to_rising(htcycles, n)) % 2 == 1,
        (htcycles + spec_to_falling(htcycles, n)) % 2 == 0,
        1 <= spec_to_rising(htcycles, n) <= 2 * n,
        1 <= spec_to_falling(htcycles, n) <= 2 * n,
        spec_to_rising(htcycles, n) == spec_to_rising(htcycles, 1) + 2 * (n - 1),
        spec_to_falling(htcycles, n) == spec_to_falling(htcycles, 1) + 2 * (n - 1),
{
}

} // verus!

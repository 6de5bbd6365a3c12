//! A counted run of numbers from the 64-bit Mersenne Twister of the
//! `rand_mt` crate.

use vstd::prelude::*;

verus! {

/// The generator of the `rand_mt` crate, `rand_mt::Mt64`.
#[verifier::external_type_specification]
#[verifier::external_body]
pub struct ExMt64(rand_mt::Mt64);

/// Makes a generator from the eight bytes of a seed, lowest first
/// (`Mt64::from` on `[u8; 8]`). Nothing is claimed of the generator.
#[verifier::external_body]
fn mt64_seeded(seed: i64) -> rand_mt::Mt64 {
    rand_mt::Mt64::from(seed.to_le_bytes())
}

/// Makes a generator with the default seed (`Mt64::new_unseeded`). Nothing is
/// claimed of the generator.
#[verifier::external_body]
fn mt64_unseeded() -> rand_mt::Mt64 {
    rand_mt::Mt64::new_unseeded()
}

/// Draws the next number (`Mt64::next_u64`). Nothing is claimed of the number.
#[verifier::external_body]
fn mt64_next_u64(rng: &mut rand_mt::Mt64) -> u64 {
    rng.next_u64()
}

/// The signed number with the same 64 bits.
pub open spec fn signed_of(n: u64) -> int {
    if n < 0x8000_0000_0000_0000 {
        n as int
    } else {
        n - 0x1_0000_0000_0000_0000
    }
}

/// The unsigned number with the same 64 bits.
pub open spec fn unsigned_of(n: i64) -> int {
    if n >= 0 {
        n as int
    } else {
        n + 0x1_0000_0000_0000_0000
    }
}

/// Reads the 64 bits of an unsigned number as a signed one.
pub fn to_signed(n: u64) -> (signed: i64)
    ensures
        signed as int == signed_of(n),
{
    if n < 0x8000_0000_0000_0000 {
        n as i64
    } else {
        let low: u64 = n - 0x8000_0000_0000_0000;
        (low as i64) + i64::MIN
    }
}

/// Reads the 64 bits of a signed number as an unsigned one.
pub fn to_unsigned(n: i64) -> (unsigned: u64)
    ensures
        unsigned as int == unsigned_of(n),
{
    if n >= 0 {
        n as u64
    } else {
        let low: i64 = n - i64::MIN;
        (low as u64) + 0x8000_0000_0000_0000
    }
}

/// How many numbers a run yields: the count that was asked for, read as an
/// unsigned number, and one where none was.
pub open spec fn run_length(count: Option<i64>) -> int {
    match count {
        Some(n) => unsigned_of(n),
        None => 1,
    }
}

/// A generator and the number of draws that are left of it.
pub struct Mt64Iter {
    rng: rand_mt::Mt64,
    count: u64,
}

impl Mt64Iter {
    /// Starts a run of `count` numbers, one where no count is given, from the
    /// given seed or, without one, from the generator's default seed.
    pub fn new(seed: Option<i64>, count: Option<i64>) -> (run: Mt64Iter)
        ensures
            run.remaining() == run_length(count),
    {
        let rng = match seed {
            Some(seed) => mt64_seeded(seed),
            None => mt64_unseeded(),
        };
        let count = match count {
            Some(n) => to_unsigned(n),
            None => 1,
        };
        Mt64Iter { rng, count }
    }

    /// The number of draws that are left.
    pub closed spec fn remaining(&self) -> int {
        self.count as int
    }

    /// The number of draws that are left.
    pub fn left(&self) -> (count: u64)
        ensures
            count as int == self.remaining(),
    {
        self.count
    }

    /// Draws the next number of the run: none once the run is used up, else
    /// the generator's next output, its 64 bits read as a signed number.
    pub fn next(&mut self) -> (drawn: Option<i64>)
        ensures
            old(self).remaining() == 0 ==> drawn is None && final(self).remaining() == 0,
            old(self).remaining() > 0 ==> drawn is Some && final(self).remaining() == old(
                self,
            ).remaining() - 1,
    {
        if self.count == 0 {
            return None;
        }
        self.count -= 1;
        let n = mt64_next_u64(&mut self.rng);
        Some(to_signed(n))
    }
}

} // verus!

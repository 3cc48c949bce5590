//! DMX universes and the addresses that index into them.
//!
//! A universe is a run of `UNIVERSE_SIZE` octets, addressed 1-based;
//! a `FixtureAddress` names one slot across all configured universes.
use vstd::prelude::*;

use crate::bounded::{spec_clamped, BoundedValue, DynamicUSize, One};
use crate::text::{
    parse_u64, spec_decimal_chars, spec_parsed_u64, spec_parses_u64, u64_to_string,
};

verus! {

/// Octet count of one DMX universe.
pub const UNIVERSE_SIZE: usize = 512;

/// 1-based position of a universe in the project's list.
pub type UniverseId = u16;

/// Channel number within one universe, held in `1..=UNIVERSE_SIZE`.
pub type UniverseAddress = BoundedValue<One, DynamicUSize<UNIVERSE_SIZE>, ()>;

/// One slot of a fixture universe: free, covered by the previous
/// fixture's footprint, or the start of a patched fixture.
#[derive(Debug, Clone, PartialEq, Eq, Structural)]
pub enum UniverseSlot {
    Unused,
    Consecutive,
    Fixture(u128),
}

/// The patch table of one universe: what sits on each of its slots,
/// and which patched fixtures it holds, by id. (Fixture bodies live
/// with the fixture tooling; the core tracks their ids.)
#[derive(Debug, Clone, PartialEq)]
pub struct FixtureUniverse {
    pub addresses: Vec<UniverseSlot>,
    pub fixtures: Vec<u128>,
}

impl FixtureUniverse {
    /// One slot per channel.
    pub open spec fn wf(self) -> bool {
        self.addresses@.len() == UNIVERSE_SIZE
    }

    /// A universe with nothing patched.
    pub fn empty() -> (r: Self)
        ensures
            r.wf(),
            forall|i: int|
                0 <= i < r.addresses@.len() ==> #[trigger] r.addresses@[i] == UniverseSlot::Unused,
            r.fixtures@.len() == 0,
    {
        let mut addresses: Vec<UniverseSlot> = Vec::new();
        let mut i: usize = 0;
        while i < UNIVERSE_SIZE
            invariant
                i <= UNIVERSE_SIZE,
                addresses@.len() == i,
                forall|j: int|
                    0 <= j < i ==> #[trigger] addresses@[j] == UniverseSlot::Unused,
            decreases UNIVERSE_SIZE - i,
        {
            addresses.push(UniverseSlot::Unused);
            i += 1;
        }
        FixtureUniverse { addresses, fixtures: Vec::new() }
    }
}

/// Pad on the right with zeros to three characters.
pub open spec fn spec_pad3(s: Seq<char>) -> Seq<char> {
    if s.len() >= 3 {
        s
    } else {
        s + Seq::new((3 - s.len()) as nat, |i: int| '0')
    }
}

/// Is `p` the position of the one and only dot in `s`?
pub open spec fn spec_is_only_dot(s: Seq<char>, p: int) -> bool {
    0 <= p < s.len() && s[p] == '.' && forall|i: int| 0 <= i < s.len() && i != p ==> s[i] != '.'
}

/// One slot across all configured universes.
#[derive(Debug, Clone, Copy, PartialEq)]
pub struct FixtureAddress {
    universe: UniverseId,
    address: UniverseAddress,
}

impl FixtureAddress {
    pub closed spec fn spec_universe(self) -> UniverseId {
        self.universe
    }

    pub closed spec fn spec_address(self) -> usize {
        self.address.spec_get()
    }

    pub fn new(universe: UniverseId, address: UniverseAddress) -> (r: Self)
        ensures
            r.spec_universe() == universe,
            r.spec_address() == address.spec_get(),
    {
        Self { universe, address }
    }

    pub fn universe(&self) -> (r: UniverseId)
        ensures
            r == self.spec_universe(),
    {
        self.universe
    }

    /// The display form `<universe>.<address>`, the address padded on
    /// the right with zeros to three characters.
    pub fn to_display_string(&self) -> (r: String)
        ensures
            r@ == spec_decimal_chars(self.spec_universe() as nat) + seq!['.'] + spec_pad3(
                spec_decimal_chars(self.spec_address() as nat),
            ),
    {
        let u_part = u64_to_string(self.universe as u64);
        let a_part = u64_to_string(self.address.take() as u64);
        let mut r = u_part;
        r.append(".");
        proof {
            reveal_strlit(".");
            assert("."@ =~= seq!['.']);
        }
        r.append(a_part.as_str());
        let base = a_part.unicode_len();
        let mut pad: usize = base;
        while pad < 3
            invariant
                base <= pad <= 3 || (base > 3 && pad == base),
                base == a_part@.len(),
                r@ == spec_decimal_chars(self.spec_universe() as nat) + seq!['.']
                    + a_part@ + Seq::new((pad - base) as nat, |i: int| '0'),
            decreases 3 - pad,
        {
            r.append("0");
            proof {
                reveal_strlit("0");
                assert("0"@ =~= seq!['0']);
                assert(r@ =~= spec_decimal_chars(self.spec_universe() as nat) + seq!['.']
                    + a_part@ + Seq::new((pad + 1 - base) as nat, |i: int| '0'));
            }
            pad += 1;
        }
        proof {
            assert(r@ =~= spec_decimal_chars(self.spec_universe() as nat) + seq!['.'] + spec_pad3(
                a_part@,
            ));
        }
        r
    }

    /// Read an address back from its `<universe>.<address>` form: one
    /// dot, an unsigned number on each side (the universe within
    /// `u16`), the address clamped into range as construction clamps
    /// it. Anything else is refused.
    pub fn from_text(s: &str) -> (r: Result<FixtureAddress, String>)
        ensures
            (r is Ok <==> exists|p: int|
                #[trigger] spec_is_only_dot(s@, p) && spec_parses_u64(s@.take(p)) && spec_parsed_u64(
                    s@.take(p),
                ) <= u16::MAX && spec_parses_u64(s@.skip(p + 1))),
            r matches Ok(addr) ==> forall|p: int|
                #[trigger] spec_is_only_dot(s@, p) ==> addr.spec_universe() == spec_parsed_u64(
                    s@.take(p),
                ) && addr.spec_address() == spec_clamped::<One, DynamicUSize<UNIVERSE_SIZE>>(
                    spec_parsed_u64(s@.skip(p + 1)) as usize,
                ),
    {
        let len = s.unicode_len();
        let mut dot: usize = len;
        let mut i: usize = 0;
        while i < len
            invariant
                i <= len,
                len == s@.len(),
                dot <= len,
                dot == len ==> forall|j: int| 0 <= j < i ==> s@[j] != '.',
                dot < len ==> dot < i && s@[dot as int] == '.' && forall|j: int|
                    0 <= j < i && j != dot ==> s@[j] != '.',
            decreases len - i,
        {
            if s.get_char(i) == '.' {
                if dot < len {
                    return Err("String not in the form '<universe>.<address>'".to_owned());
                }
                dot = i;
            }
            i += 1;
        }
        if dot == len {
            return Err("String not in the form '<universe>.<address>'".to_owned());
        }
        proof {
            assert(spec_is_only_dot(s@, dot as int));
        }
        let left = s.substring_char(0, dot);
        let right = s.substring_char(dot + 1, len);
        proof {
            assert(left@ =~= s@.take(dot as int));
            assert(right@ =~= s@.skip(dot as int + 1));
        }
        let u = match parse_u64(left) {
            Some(u) => u,
            None => {
                return Err("invalid universe number".to_owned());
            },
        };
        if u > u16::MAX as u64 {
            return Err("invalid universe number".to_owned());
        }
        let a = match parse_u64(right) {
            Some(a) => a,
            None => {
                return Err("invalid address number".to_owned());
            },
        };
        let address = UniverseAddress::create(a as usize);
        Ok(FixtureAddress::new(u as u16, address))
    }

    pub fn address(&self) -> (r: UniverseAddress)
        ensures
            r.spec_get() == self.spec_address(),
            1 <= r.spec_get() <= UNIVERSE_SIZE,
    {
        proof {
            use_type_invariant(&self.address);
        }
        self.address
    }
}

} // verus!

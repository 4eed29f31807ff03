use crate::agent::AgentId;
use vstd::bytes::{
    lemma_auto_spec_u64_to_from_le_bytes, spec_u64_from_le_bytes, spec_u64_to_le_bytes,
    u64_from_le_bytes, u64_to_le_bytes,
};
use vstd::prelude::*;
use vstd::slice::slice_subrange;
use vstd::string::StringExecFns;

verus! {

/// The address of an endpoint on the in-memory network: 32 bytes, of which the
/// first eight hold a counter, least significant byte first.
#[derive(Clone, Copy, Debug, PartialEq, Eq, Hash)]
pub struct InMemoryAddress(pub [u8; 32]);

/// The hexadecimal digit for a number below 16, in lower case.
pub open spec fn hex_digit(n: u8) -> Seq<char> {
    if n == 0 {
        "0"@
    } else if n == 1 {
        "1"@
    } else if n == 2 {
        "2"@
    } else if n == 3 {
        "3"@
    } else if n == 4 {
        "4"@
    } else if n == 5 {
        "5"@
    } else if n == 6 {
        "6"@
    } else if n == 7 {
        "7"@
    } else if n == 8 {
        "8"@
    } else if n == 9 {
        "9"@
    } else if n == 10 {
        "a"@
    } else if n == 11 {
        "b"@
    } else if n == 12 {
        "c"@
    } else if n == 13 {
        "d"@
    } else if n == 14 {
        "e"@
    } else {
        "f"@
    }
}

/// The two hexadecimal digits of a byte, the high one first.
pub open spec fn hex_byte(byte: u8) -> Seq<char> {
    hex_digit(byte / 16) + hex_digit(byte % 16)
}

/// The hexadecimal digit for a number; `f` for 15 and above.
fn digit(n: u8) -> (text: &'static str)
    ensures
        text@ == hex_digit(n),
{
    if n == 0 {
        "0"
    } else if n == 1 {
        "1"
    } else if n == 2 {
        "2"
    } else if n == 3 {
        "3"
    } else if n == 4 {
        "4"
    } else if n == 5 {
        "5"
    } else if n == 6 {
        "6"
    } else if n == 7 {
        "7"
    } else if n == 8 {
        "8"
    } else if n == 9 {
        "9"
    } else if n == 10 {
        "a"
    } else if n == 11 {
        "b"
    } else if n == 12 {
        "c"
    } else if n == 13 {
        "d"
    } else if n == 14 {
        "e"
    } else {
        "f"
    }
}

impl InMemoryAddress {
    /// The address with these bytes.
    pub fn from_bytes(bytes: [u8; 32]) -> (address: Self)
        ensures
            address.0 == bytes,
    {
        InMemoryAddress(bytes)
    }

    /// The bytes of the address.
    pub fn as_bytes(&self) -> (bytes: &[u8; 32])
        ensures
            *bytes == self.0,
    {
        &self.0
    }

    /// The counter that the first eight bytes hold.
    pub open spec fn counter_spec(&self) -> u64 {
        spec_u64_from_le_bytes(self.0@.subrange(0, 8))
    }

    /// The address that a generator hands out for the `counter`-th endpoint:
    /// the counter in the first eight bytes, zeros behind it.
    pub fn from_counter(counter: u64) -> (address: Self)
        ensures
            address.0@.subrange(0, 8) == spec_u64_to_le_bytes(counter),
            forall|i: int| 8 <= i < 32 ==> address.0@[i] == 0,
            address.counter_spec() == counter,
    {
        let low = u64_to_le_bytes(counter);
        let mut bytes = [0u8;32];
        let mut i: usize = 0;
        while i < 8
            invariant
                i <= 8,
                low@.len() == 8,
                forall|j: int| 0 <= j < i ==> bytes@[j] == low@[j],
                forall|j: int| 8 <= j < 32 ==> bytes@[j] == 0,
            decreases 8 - i,
        {
            bytes[i] = low[i];
            i += 1;
        }
        proof {
            assert(bytes@.subrange(0, 8) =~= low@);
            lemma_auto_spec_u64_to_from_le_bytes();
        }
        InMemoryAddress(bytes)
    }

    /// The counter that the first eight bytes hold.
    pub fn counter(&self) -> (counter: u64)
        ensures
            counter == self.counter_spec(),
    {
        let low = slice_subrange(self.0.as_slice(), 0, 8);
        u64_from_le_bytes(low)
    }

    /// The identifier of the agent at this address: its counter.
    pub fn id(&self) -> (id: AgentId)
        ensures
            id.value == self.counter_spec(),
    {
        AgentId::new(self.counter())
    }

    /// How the address is shown: `agent-` and the first four bytes in
    /// hexadecimal.
    pub open spec fn label_spec(&self) -> Seq<char> {
        "agent-"@ + hex_byte(self.0@[0]) + hex_byte(self.0@[1]) + hex_byte(self.0@[2]) + hex_byte(
            self.0@[3],
        )
    }

    /// How the address is shown: `agent-` and the first four bytes in
    /// hexadecimal.
    pub fn label(&self) -> (text: String)
        ensures
            text@ == self.label_spec(),
    {
        let mut text = String::from_str("agent-");
        let mut i: usize = 0;
        while i < 4
            invariant
                i <= 4,
                i == 0 ==> text@ == "agent-"@,
                i == 1 ==> text@ == "agent-"@ + hex_byte(self.0@[0]),
                i == 2 ==> text@ == "agent-"@ + hex_byte(self.0@[0]) + hex_byte(self.0@[1]),
                i == 3 ==> text@ == "agent-"@ + hex_byte(self.0@[0]) + hex_byte(self.0@[1])
                    + hex_byte(self.0@[2]),
                i == 4 ==> text@ == self.label_spec(),
            decreases 4 - i,
        {
            let byte = self.0[i];
            let ghost before = text@;
            text.append(digit(byte / 16));
            text.append(digit(byte % 16));
            assert(text@ =~= before + hex_byte(byte));
            i += 1;
        }
        text
    }
}

} // verus!

//! Thirty-two byte identifiers of groups, banks, mints, vaults and principals.
use vstd::prelude::*;

verus! {

/// An account address: thirty-two opaque bytes.
#[derive(Clone, Copy, Debug, Eq)]
pub struct Address {
    pub bytes: [u8; 32],
}

impl View for Address {
    type V = Seq<u8>;

    open spec fn view(&self) -> Seq<u8> {
        self.bytes@
    }
}

impl Address {
    /// Wraps thirty-two bytes as an address.
    pub fn new(bytes: [u8; 32]) -> (a: Address)
        ensures
            a.bytes == bytes,
    {
        Address { bytes }
    }

    /// The address that stands in `bytes` from place `offset` on, if thirty-two bytes stand
    /// there.
    pub fn from_slice(bytes: &Vec<u8>, offset: usize) -> (r: Option<Address>)
        ensures
            match r {
                Some(a) => offset + 32 <= bytes@.len() && a@ == bytes@.subrange(offset as int, offset + 32)
                    && a == address_of(bytes@.subrange(offset as int, offset + 32)),
                None => offset + 32 > bytes@.len(),
            },
    {
        if bytes.len() < 32 || offset > bytes.len() - 32 {
            return None;
        }
        let mut out: [u8; 32] = [0u8; 32];
        let mut i: usize = 0;
        while i < 32
            invariant
                i <= 32,
                offset + 32 <= bytes@.len() <= usize::MAX,
                forall|j: int| 0 <= j < i ==> out[j] == bytes@[offset + j],
            decreases 32 - i,
        {
            out[i] = bytes[offset + i];
            i = i + 1;
        }
        let a = Address { bytes: out };
        proof {
            assert(a@ =~= bytes@.subrange(offset as int, offset + 32));
            lemma_address_of_view(a);
        }
        Some(a)
    }

    /// The bytes of the address, in order.
    pub fn to_vec(&self) -> (v: Vec<u8>)
        ensures
            v@ == self@,
    {
        let mut v: Vec<u8> = Vec::new();
        let mut i: usize = 0;
        while i < 32
            invariant
                i <= 32,
                v@ == self@.subrange(0, i as int),
            decreases 32 - i,
        {
            v.push(self.bytes[i]);
            i = i + 1;
        }
        v
    }
}

/// Two addresses with the same bytes are the same address.
pub proof fn lemma_address_view_injective(a: Address, b: Address)
    requires
        a@ == b@,
    ensures
        a == b,
{
    assert(a.bytes =~= b.bytes);
}

impl PartialEq for Address {
    fn eq(&self, other: &Address) -> (r: bool) {
        let mut i: usize = 0;
        while i < 32
            invariant
                i <= 32,
                forall|j: int| 0 <= j < i ==> self.bytes[j] == other.bytes[j],
            decreases 32 - i,
        {
            if self.bytes[i] != other.bytes[i] {
                return false;
            }
            i = i + 1;
        }
        assert(self.bytes =~= other.bytes);
        true
    }
}

impl vstd::std_specs::cmp::PartialEqSpecImpl for Address {
    open spec fn obeys_eq_spec() -> bool {
        true
    }

    open spec fn eq_spec(&self, other: &Address) -> bool {
        *self == *other
    }
}

/// The address whose bytes are `bytes`.
pub open spec fn address_of(bytes: Seq<u8>) -> Address {
    choose|a: Address| a@ == bytes
}

/// An array that agrees with `bytes` in its first `n` places.
pub open spec fn array_of_prefix(bytes: Seq<u8>, n: nat) -> [u8; 32]
    decreases n,
{
    if n == 0 {
        vstd::array::spec_array_fill_for_copy_type::<u8, 32>(0u8)
    } else {
        vstd::array::spec_array_update(array_of_prefix(bytes, (n - 1) as nat), n - 1, bytes[n - 1])
    }
}

proof fn lemma_array_of_prefix(bytes: Seq<u8>, n: nat)
    requires
        bytes.len() == 32,
        n <= 32,
    ensures
        forall|j: int| 0 <= j < n ==> array_of_prefix(bytes, n)@[j] == bytes[j],
    decreases n,
{
    broadcast use vstd::array::group_array_axioms;

    if n > 0 {
        lemma_array_of_prefix(bytes, (n - 1) as nat);
        let before = array_of_prefix(bytes, (n - 1) as nat);
        assert(array_of_prefix(bytes, n)@ == before@.update(n - 1, bytes[n - 1]));
    }
}

/// Any thirty-two bytes are the bytes of an address.
pub proof fn lemma_address_bytes(bytes: Seq<u8>)
    requires
        bytes.len() == 32,
    ensures
        address_of(bytes)@ == bytes,
{
    broadcast use vstd::array::group_array_axioms;

    lemma_array_of_prefix(bytes, 32);
    let a = Address { bytes: array_of_prefix(bytes, 32) };
    assert(a@ =~= bytes);
}

/// An address is the address of its own bytes.
pub proof fn lemma_address_of_view(a: Address)
    ensures
        address_of(a@) == a,
{
    lemma_address_view_injective(address_of(a@), a);
}

} // verus!

use vstd::prelude::*;

verus! {

/// Whether two 32-byte identifiers hold the same bytes.
fn same_bytes(a: &[u8; 32], b: &[u8; 32]) -> (r: bool)
    ensures
        r == (a@ == b@),
{
    let mut i: usize = 0;
    while i < 32
        invariant
            0 <= i <= 32,
            a@.len() == 32,
            b@.len() == 32,
            forall|j: int| 0 <= j < i ==> a@[j] == b@[j],
        decreases 32 - i,
    {
        if a[i] != b[i] {
            return false;
        }
        i = i + 1;
    }
    assert(a@ =~= b@);
    true
}

/// A 32-byte identifier of an asset (token) on chain.
#[derive(Clone, Copy, Debug)]
pub struct AssetId {
    pub bytes: [u8; 32],
}

impl View for AssetId {
    type V = Seq<u8>;

    open spec fn view(&self) -> Seq<u8> {
        self.bytes@
    }
}

impl AssetId {
    pub fn new(bytes: [u8; 32]) -> (r: AssetId)
        ensures
            r@ == bytes@,
    {
        AssetId { bytes }
    }

    /// The all-zero identifier, which no live asset has.
    pub fn zeroed() -> (r: AssetId)
        ensures
            r@ == Seq::new(32, |i: int| 0u8),
    {
        let r = AssetId { bytes: [0u8; 32] };
        assert(r.bytes@ =~= Seq::new(32, |i: int| 0u8));
        r
    }
}

impl PartialEq for AssetId {
    fn eq(&self, other: &AssetId) -> (r: bool)
        ensures
            r == (self@ == other@),
    {
        same_bytes(&self.bytes, &other.bytes)
    }
}

impl vstd::std_specs::cmp::PartialEqSpecImpl for AssetId {
    open spec fn obeys_eq_spec() -> bool {
        true
    }

    open spec fn eq_spec(&self, other: &AssetId) -> bool {
        self@ == other@
    }
}

/// A 32-byte identifier of a deployed contract.
#[derive(Clone, Copy, Debug)]
pub struct ContractId {
    pub bytes: [u8; 32],
}

impl View for ContractId {
    type V = Seq<u8>;

    open spec fn view(&self) -> Seq<u8> {
        self.bytes@
    }
}

impl ContractId {
    pub fn new(bytes: [u8; 32]) -> (r: ContractId)
        ensures
            r@ == bytes@,
    {
        ContractId { bytes }
    }

    /// The all-zero identifier.
    pub fn zeroed() -> (r: ContractId)
        ensures
            r@ == Seq::new(32, |i: int| 0u8),
    {
        let r = ContractId { bytes: [0u8; 32] };
        assert(r.bytes@ =~= Seq::new(32, |i: int| 0u8));
        r
    }
}

impl PartialEq for ContractId {
    fn eq(&self, other: &ContractId) -> (r: bool)
        ensures
            r == (self@ == other@),
    {
        same_bytes(&self.bytes, &other.bytes)
    }
}

impl vstd::std_specs::cmp::PartialEqSpecImpl for ContractId {
    open spec fn obeys_eq_spec() -> bool {
        true
    }

    open spec fn eq_spec(&self, other: &ContractId) -> bool {
        self@ == other@
    }
}

} // verus!

//! Fixed-width hashes and addresses, as plain byte arrays.
use vstd::prelude::*;

verus! {

/// A 32-byte hash: a block hash, a transaction hash or a log topic.
#[derive(Clone, Copy, Debug)]
pub struct H256(pub [u8; 32]);

/// A 20-byte account address.
#[derive(Clone, Copy, Debug)]
pub struct H160(pub [u8; 20]);

impl View for H256 {
    type V = Seq<u8>;

    open spec fn view(&self) -> Seq<u8> {
        self.0@
    }
}

impl View for H160 {
    type V = Seq<u8>;

    open spec fn view(&self) -> Seq<u8> {
        self.0@
    }
}

/// Whether two byte slices hold the same bytes.
pub fn bytes_equal(a: &[u8], b: &[u8]) -> (r: bool)
    ensures
        r == (a@ == b@),
{
    if a.len() != b.len() {
        return false;
    }
    let mut i: usize = 0;
    while i < a.len()
        invariant
            a@.len() == b@.len(),
            0 <= i <= a@.len(),
            a@.subrange(0, i as int) == b@.subrange(0, i as int),
        decreases a@.len() - i,
    {
        if a[i] != b[i] {
            assert(a@[i as int] != b@[i as int]);
            return false;
        }
        assert(a@.subrange(0, i + 1) == a@.subrange(0, i as int).push(a@[i as int]));
        assert(b@.subrange(0, i + 1) == b@.subrange(0, i as int).push(b@[i as int]));
        i = i + 1;
    }
    assert(a@ == a@.subrange(0, a@.len() as int));
    assert(b@ == b@.subrange(0, b@.len() as int));
    true
}

/// Copies a byte slice into a vector.
pub fn bytes_to_vec(a: &[u8]) -> (r: Vec<u8>)
    ensures
        r@ == a@,
{
    let mut out: Vec<u8> = Vec::new();
    let mut i: usize = 0;
    while i < a.len()
        invariant
            0 <= i <= a@.len(),
            out@ == a@.subrange(0, i as int),
        decreases a@.len() - i,
    {
        out.push(a[i]);
        assert(a@.subrange(0, i + 1) == a@.subrange(0, i as int).push(a@[i as int]));
        i = i + 1;
    }
    assert(a@ == a@.subrange(0, a@.len() as int));
    out
}

impl H256 {
    /// The hash whose every byte is `b`.
    pub fn repeat_byte(b: u8) -> (r: H256)
        ensures
            r@ == Seq::new(32, |i: int| b),
    {
        let r = H256([b; 32]);
        assert(r@ =~= Seq::new(32, |i: int| b));
        r
    }

    /// The all-zero hash, which pads absent topic slots.
    pub fn zero() -> (r: H256)
        ensures
            r@ == Seq::new(32, |i: int| 0u8),
    {
        H256::repeat_byte(0)
    }

    /// The bytes of the hash, in a vector.
    pub fn to_vec(&self) -> (r: Vec<u8>)
        ensures
            r@ == self@,
            r@.len() == 32,
    {
        bytes_to_vec(self.0.as_slice())
    }

    /// The hash held by a 32-byte slice; `None` for any other length.
    pub fn from_slice(s: &[u8]) -> (r: Option<H256>)
        ensures
            s@.len() == 32 <==> r.is_some(),
            r.is_some() ==> r.unwrap()@ == s@,
    {
        if s.len() != 32 {
            return None;
        }
        let mut a: [u8; 32] = [0u8; 32];
        let mut i: usize = 0;
        while i < 32
            invariant
                s@.len() == 32,
                0 <= i <= 32,
                forall|j: int| 0 <= j < i ==> a@[j] == s@[j],
            decreases 32 - i,
        {
            a[i] = s[i];
            i = i + 1;
        }
        let r = H256(a);
        assert(r@ =~= s@);
        Some(r)
    }

    /// Whether two hashes are equal.
    pub fn equals(&self, other: &H256) -> (r: bool)
        ensures
            r == (self@ == other@),
    {
        bytes_equal(self.0.as_slice(), other.0.as_slice())
    }
}

impl H160 {
    /// The address whose every byte is `b`.
    pub fn repeat_byte(b: u8) -> (r: H160)
        ensures
            r@ == Seq::new(20, |i: int| b),
    {
        let r = H160([b; 20]);
        assert(r@ =~= Seq::new(20, |i: int| b));
        r
    }

    /// The bytes of the address, in a vector.
    pub fn to_vec(&self) -> (r: Vec<u8>)
        ensures
            r@ == self@,
            r@.len() == 20,
    {
        bytes_to_vec(self.0.as_slice())
    }

    /// Whether two addresses are equal.
    pub fn equals(&self, other: &H160) -> (r: bool)
        ensures
            r == (self@ == other@),
    {
        bytes_equal(self.0.as_slice(), other.0.as_slice())
    }
}

impl PartialEq for H256 {
    fn eq(&self, other: &H256) -> (r: bool) {
        self.equals(other)
    }
}

impl vstd::std_specs::cmp::PartialEqSpecImpl for H256 {
    open spec fn obeys_eq_spec() -> bool {
        true
    }

    open spec fn eq_spec(&self, other: &H256) -> bool {
        self@ == other@
    }
}

impl PartialEq for H160 {
    fn eq(&self, other: &H160) -> (r: bool) {
        self.equals(other)
    }
}

impl vstd::std_specs::cmp::PartialEqSpecImpl for H160 {
    open spec fn obeys_eq_spec() -> bool {
        true
    }

    open spec fn eq_spec(&self, other: &H160) -> bool {
        self@ == other@
    }
}

} // verus!

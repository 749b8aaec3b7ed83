//! Account and contract addresses, held as their Stellar strkeys.
use vstd::prelude::*;

verus! {

/// An account (`G...`) or contract (`C...`) address, by its strkey.
///
/// Two addresses are the same address exactly when their strkeys are equal.
pub struct Address {
    pub strkey: String,
}

impl View for Address {
    type V = Seq<char>;

    open spec fn view(&self) -> Seq<char> {
        self.strkey@
    }
}

impl Address {
    /// The address with the given strkey.
    pub fn from_strkey(strkey: String) -> (a: Address)
        ensures
            a.strkey == strkey,
            a@ == strkey@,
    {
        Address { strkey }
    }

    /// Whether `self` and `other` are the same address.
    pub fn same_as(&self, other: &Address) -> (r: bool)
        ensures
            r == (self@ == other@),
    {
        self.strkey == other.strkey
    }

    /// A copy of this address.
    pub fn duplicate(&self) -> (r: Address)
        ensures
            r == *self,
            r@ == self@,
    {
        Address { strkey: self.strkey.clone() }
    }
}

/// A copy of an optional address.
pub fn duplicate_opt(a: &Option<Address>) -> (r: Option<Address>)
    ensures
        r == *a,
{
    match a {
        Some(x) => Some(x.duplicate()),
        None => None,
    }
}

/// A copy of a list of addresses.
pub fn duplicate_list(v: &Vec<Address>) -> (r: Vec<Address>)
    ensures
        r@ == v@,
{
    let mut out: Vec<Address> = Vec::new();
    let mut i: usize = 0;
    while i < v.len()
        invariant
            i <= v@.len(),
            out@ == v@.subrange(0, i as int),
        decreases v@.len() - i,
    {
        out.push(v[i].duplicate());
        proof {
            assert(v@.subrange(0, i + 1) == v@.subrange(0, i as int).push(v@[i as int]));
        }
        i = i + 1;
    }
    proof {
        assert(v@.subrange(0, v@.len() as int) == v@);
    }
    out
}

/// A copy of a string.
pub fn duplicate_string(s: &String) -> (r: String)
    ensures
        r == *s,
        r@ == s@,
{
    s.clone()
}

} // verus!

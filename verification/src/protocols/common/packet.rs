use vstd::prelude::*;

verus! {

/// A received frame with a read cursor.
///
/// Parsers consume bytes from the front with `read`; what they have not
/// consumed is the packet's view.
#[derive(Debug)]
pub struct Packet {
    data: Vec<u8>,
    offset: usize,
    vlan_id: Option<u16>,
}

impl View for Packet {
    type V = Seq<u8>;

    /// The bytes not yet consumed.
    closed spec fn view(&self) -> Seq<u8> {
        self.data@.subrange(self.offset as int, self.data@.len() as int)
    }
}

impl Clone for Packet {
    /// A copy with the same bytes, cursor and VLAN id.
    fn clone(&self) -> (r: Self)
        ensures
            r@ == self@,
            r.spec_vlan_id() == self.spec_vlan_id(),
    {
        proof { use_type_invariant(self); }
        let data = crate::common::bytes::copy_range(self.data.as_slice(), 0, self.data.len());
        assert(data@ =~= self.data@);
        Packet { data, offset: self.offset, vlan_id: self.vlan_id }
    }
}

impl Packet {
    #[verifier::type_invariant]
    closed spec fn inv(self) -> bool {
        self.offset <= self.data@.len()
    }

    /// The VLAN id recorded while parsing, if any.
    pub closed spec fn spec_vlan_id(&self) -> Option<u16> {
        self.vlan_id
    }

    /// Creates a packet holding `data`, with nothing consumed.
    pub fn from_bytes(data: Vec<u8>) -> (r: Self)
        ensures
            r@ == data@,
            r.spec_vlan_id() is None,
    {
        let r = Packet { data, offset: 0, vlan_id: None };
        assert(r@ =~= r.data@);
        r
    }

    /// Creates an empty packet.
    pub fn new() -> (r: Self)
        ensures
            r@ == Seq::<u8>::empty(),
            r.spec_vlan_id() is None,
    {
        let r = Packet { data: Vec::new(), offset: 0, vlan_id: None };
        assert(r@ =~= Seq::<u8>::empty());
        r
    }

    /// The number of bytes not yet consumed.
    pub fn remaining(&self) -> (r: usize)
        ensures
            r == self@.len(),
    {
        proof { use_type_invariant(self); }
        self.data.len() - self.offset
    }

    /// Consumes the next `n` bytes, or nothing when fewer remain.
    pub fn read(&mut self, n: usize) -> (r: Option<&[u8]>)
        ensures
            n <= old(self)@.len() ==> (r matches Some(s) && s@ == old(self)@.take(n as int)
                && final(self)@ == old(self)@.skip(n as int)),
            n > old(self)@.len() ==> r is None && final(self)@ == old(self)@,
            final(self).spec_vlan_id() == old(self).spec_vlan_id(),
    {
        proof { use_type_invariant(&*self); }
        if n > self.data.len() - self.offset {
            return None;
        }
        let start = self.offset;
        self.offset = self.offset + n;
        let s = self.data.as_slice();
        let r = &s[start..start + n];
        proof {
            assert(r@ =~= old(self)@.take(n as int));
            assert(self@ =~= old(self)@.skip(n as int));
        }
        Some(r)
    }

    /// The next `n` bytes, without consuming them.
    pub fn peek(&self, n: usize) -> (r: Option<&[u8]>)
        ensures
            n <= self@.len() ==> (r matches Some(s) && s@ == self@.take(n as int)),
            n > self@.len() ==> r is None,
    {
        proof { use_type_invariant(self); }
        if n > self.data.len() - self.offset {
            return None;
        }
        let s = self.data.as_slice();
        let r = &s[self.offset..self.offset + n];
        assert(r@ =~= self@.take(n as int));
        Some(r)
    }

    /// The unconsumed bytes as a slice.
    pub fn as_slice(&self) -> (r: &[u8])
        ensures
            r@ == self@,
    {
        proof { use_type_invariant(self); }
        let s = self.data.as_slice();
        &s[self.offset..self.data.len()]
    }

    /// Appends bytes at the end.
    pub fn extend_from_slice(&mut self, s: &[u8])
        ensures
            final(self)@ == old(self)@ + s@,
            final(self).spec_vlan_id() == old(self).spec_vlan_id(),
    {
        proof { use_type_invariant(&*self); }
        let mut d = self.data.clone();
        crate::common::bytes::push_slice(&mut d, s);
        let ghost old_data = self.data@;
        *self = Packet { data: d, offset: self.offset, vlan_id: self.vlan_id };
        assert(self@ =~= old(self)@ + s@);
    }

    /// The unconsumed bytes as a new vector.
    pub fn to_vec(&self) -> (r: Vec<u8>)
        ensures
            r@ == self@,
    {
        proof { use_type_invariant(self); }
        let s = self.as_slice();
        crate::common::bytes::copy_range(s, 0, s.len())
    }

    /// Records the VLAN id found while parsing.
    pub fn set_vlan_id(&mut self, vid: u16)
        ensures
            final(self)@ == old(self)@,
            final(self).spec_vlan_id() == Some(vid),
    {
        proof { use_type_invariant(&*self); }
        self.vlan_id = Some(vid);
    }

    /// The VLAN id recorded while parsing, if any.
    pub fn vlan_id(&self) -> (r: Option<u16>)
        ensures
            r == self.spec_vlan_id(),
    {
        self.vlan_id
    }
}

} // verus!

//! The registry of the node's dialable address: the first public address that
//! the transport reports is kept, and never replaced.
use vstd::prelude::*;
use crate::text::{has_local_marker, is_local_address};

verus! {

/// An address the transport listens on.
#[derive(Clone, Debug, PartialEq, Eq)]
pub struct ListenAddress {
    /// The textual form of the address, as the transport reports it.
    pub text: String,
    /// The same address suffixed with the node's own identifier: the form a
    /// remote peer dials.
    pub dialable: String,
}

impl View for ListenAddress {
    type V = (Seq<char>, Seq<char>);

    open spec fn view(&self) -> (Seq<char>, Seq<char>) {
        (self.text@, self.dialable@)
    }
}

/// What the registry holds after `addr` is offered to one holding `stored`.
pub open spec fn offered(stored: Option<Seq<char>>, addr: (Seq<char>, Seq<char>)) -> Option<Seq<char>> {
    if stored is None && !has_local_marker(addr.0) {
        Some(addr.1)
    } else {
        stored
    }
}

/// What the registry holds after each address of `addrs` is offered in turn.
pub open spec fn after_offers(stored: Option<Seq<char>>, addrs: Seq<(Seq<char>, Seq<char>)>) -> Option<Seq<char>>
    decreases addrs.len(),
{
    if addrs.len() == 0 {
        stored
    } else {
        after_offers(offered(stored, addrs[0]), addrs.subrange(1, addrs.len() as int))
    }
}

/// The dialable form of the first address of `addrs` that is not local-only.
pub open spec fn first_public(addrs: Seq<(Seq<char>, Seq<char>)>) -> Option<Seq<char>>
    decreases addrs.len(),
{
    if addrs.len() == 0 {
        None
    } else if !has_local_marker(addrs[0].0) {
        Some(addrs[0].1)
    } else {
        first_public(addrs.subrange(1, addrs.len() as int))
    }
}

/// Holds the node's dialable address once it is known.
#[derive(Debug)]
pub struct AddressRegistry {
    address: Option<String>,
}

impl View for AddressRegistry {
    type V = Option<Seq<char>>;

    closed spec fn view(&self) -> Option<Seq<char>> {
        match self.address {
            Some(a) => Some(a@),
            None => None,
        }
    }
}

impl AddressRegistry {
    /// A registry that holds no address yet.
    pub fn new() -> (r: AddressRegistry)
        ensures
            r@ is None,
    {
        AddressRegistry { address: None }
    }

    /// The address, if one is known.
    pub fn get(&self) -> (r: Option<String>)
        ensures
            r is Some <==> self@ is Some,
            r is Some ==> r->0@ == self@->0,
    {
        match &self.address {
            Some(a) => Some(a.clone()),
            None => None,
        }
    }

    /// Stores `value` unless an address is already held; tells whether it
    /// wrote.
    pub fn set_if_absent(&mut self, value: String) -> (r: bool)
        ensures
            r == (old(self)@ is None),
            final(self)@ == (if old(self)@ is None { Some(value@) } else { old(self)@ }),
    {
        if self.address.is_none() {
            self.address = Some(value);
            true
        } else {
            false
        }
    }

    /// Offers an address the transport listens on: a local-only one is
    /// passed over, and the first other one is stored.
    pub fn offer(&mut self, addr: &ListenAddress) -> (r: bool)
        ensures
            final(self)@ == offered(old(self)@, addr@),
            r == (old(self)@ is None && !has_local_marker(addr.text@)),
    {
        if is_local_address(addr.text.as_str()) {
            false
        } else {
            self.set_if_absent(addr.dialable.clone())
        }
    }
}

/// Once an address is held, no sequence of offers changes it.
pub proof fn lemma_stored_address_kept(a: Seq<char>, addrs: Seq<(Seq<char>, Seq<char>)>)
    ensures
        after_offers(Some(a), addrs) == Some(a),
    decreases addrs.len(),
{
    if addrs.len() > 0 {
        lemma_stored_address_kept(a, addrs.subrange(1, addrs.len() as int));
    }
}

/// Offering a sequence of addresses to an empty registry leaves it holding
/// the dialable form of the first address that is not local-only, however
/// many addresses follow it.
pub proof fn lemma_first_address_wins(addrs: Seq<(Seq<char>, Seq<char>)>)
    ensures
        after_offers(None, addrs) == first_public(addrs),
    decreases addrs.len(),
{
    if addrs.len() > 0 {
        let rest = addrs.subrange(1, addrs.len() as int);
        if has_local_marker(addrs[0].0) {
            lemma_first_address_wins(rest);
        } else {
            lemma_stored_address_kept(addrs[0].1, rest);
        }
    }
}

/// Offers of local-only addresses never change what the registry holds.
pub proof fn lemma_local_addresses_ignored(stored: Option<Seq<char>>, addrs: Seq<(Seq<char>, Seq<char>)>)
    requires
        forall|i: int| 0 <= i < addrs.len() ==> has_local_marker(#[trigger] addrs[i].0),
    ensures
        after_offers(stored, addrs) == stored,
    decreases addrs.len(),
{
    if addrs.len() > 0 {
        let rest = addrs.subrange(1, addrs.len() as int);
        assert(has_local_marker(addrs[0].0));
        assert forall|i: int| 0 <= i < rest.len() implies has_local_marker(#[trigger] rest[i].0) by {
            assert(rest[i] == addrs[i + 1]);
        }
        lemma_local_addresses_ignored(stored, rest);
    }
}

} // verus!

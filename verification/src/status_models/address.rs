//! Endpoints of the cluster: a network address that may carry the mark of
//! transport security.

use vstd::prelude::*;
use crate::status_models::network_address::{
    address_parsed, address_text, port_parsed, NetworkAddress, NetworkAddressView, ParseError,
};
use crate::status_models::round_trip::{
    is_plain_text, lemma_address_round_trip, lemma_address_text_is_plain,
    parsed_address_is_well_formed, plain_text_round_trip, port_part,
};
use crate::text::{chars_of, slice_of};

verus! {

/// A network address and whether connections to it are secured.
#[derive(Debug, Clone, PartialEq, Eq)]
pub struct Address {
    pub address: NetworkAddress,
    /// can only be the literal string ":tls" or absent
    pub tls: bool,
}

/// An endpoint as plain values.
pub struct AddressView {
    pub address: NetworkAddressView,
    pub tls: bool,
}

impl View for Address {
    type V = AddressView;

    open spec fn view(&self) -> AddressView {
        AddressView { address: self.address@, tls: self.tls }
    }
}

/// The mark of transport security at the end of an endpoint's text.
pub open spec fn tls_suffix() -> Seq<char> {
    seq![':', 't', 'l', 's']
}

/// Whether a text ends with the mark of transport security.
pub open spec fn has_tls_suffix(t: Seq<char>) -> bool {
    t.len() >= 4 && t.skip(t.len() - 4) == tls_suffix()
}

/// The text of an endpoint without the mark of transport security.
pub open spec fn address_part(t: Seq<char>) -> Seq<char> {
    if has_tls_suffix(t) {
        t.take(t.len() - 4)
    } else {
        t
    }
}

/// The endpoint that a text spells: the mark of transport security at its
/// end, if it has one, is taken off, and what is left must spell a network
/// address.
pub open spec fn endpoint_parsed(t: Seq<char>) -> Result<AddressView, ParseError> {
    match address_parsed(address_part(t)) {
        Ok(address) => Ok(AddressView { address, tls: has_tls_suffix(t) }),
        Err(e) => Err(e),
    }
}

/// An endpoint as text: its address, then the mark of transport security if
/// it is secured.
pub open spec fn endpoint_text(a: AddressView) -> Seq<char> {
    if a.tls {
        address_text(a.address) + tls_suffix()
    } else {
        address_text(a.address)
    }
}

impl Address {
    /// Reads an endpoint from its text.
    pub fn from_str(s: &str) -> (r: Result<Address, ParseError>)
        ensures
            r matches Ok(a) ==> endpoint_parsed(s@) == Ok::<_, ParseError>(a@),
            r matches Err(e) ==> endpoint_parsed(s@) == Err::<AddressView, _>(e),
    {
        let v = chars_of(s);
        let n = v.len();
        let tls = n >= 4 && v[n - 4] == ':' && v[n - 3] == 't' && v[n - 2] == 'l' && v[n - 1]
            == 's';
        proof {
            if n >= 4 {
                let end = v@.skip(n - 4);
                assert(end[0] == v@[n - 4]);
                assert(end[1] == v@[n - 3]);
                assert(end[2] == v@[n - 2]);
                assert(end[3] == v@[n - 1]);
                if tls {
                    assert(end =~= tls_suffix());
                }
            }
        }
        let address = if tls {
            let body = slice_of(&v, 0, n - 4);
            assert(body@ =~= v@.take(n - 4));
            NetworkAddress::from_chars(&body)?
        } else {
            NetworkAddress::from_chars(&v)?
        };
        Ok(Address { address, tls })
    }

    /// Writes the endpoint as text.
    pub fn to_string(&self) -> (r: String)
        ensures
            r@ == endpoint_text(self@),
    {
        let mut out = self.address.to_string();
        if self.tls {
            out.push(':');
            out.push('t');
            out.push('l');
            out.push('s');
            assert(out@ =~= address_text(self.address@) + tls_suffix());
        }
        out
    }
}

impl core::str::FromStr for Address {
    type Err = ParseError;

    /// Reads an endpoint from its text, as `Address::from_str` does.
    fn from_str(s: &str) -> (r: Result<Address, ParseError>)
        ensures
            r matches Ok(a) ==> endpoint_parsed(s@) == Ok::<_, ParseError>(a@),
            r matches Err(e) ==> endpoint_parsed(s@) == Err::<AddressView, _>(e),
    {
        Address::from_str(s)
    }
}

/// Reading the text of an endpoint gives the endpoint back, whenever its
/// address is well formed.
pub proof fn endpoint_round_trip(a: AddressView)
    requires
        a.address.well_formed(),
    ensures
        endpoint_parsed(endpoint_text(a)) == Ok::<_, ParseError>(a),
{
    let body = address_text(a.address);
    lemma_address_round_trip(a.address);
    let t = endpoint_text(a);
    if a.tls {
        assert(t.skip(t.len() - 4) =~= tls_suffix());
        assert(t.take(t.len() - 4) =~= body);
    } else {
        // the text ends with a digit of the port, so not with the mark
        if t.len() >= 4 {
            assert(t.skip(t.len() - 4)[3] == t.last());
            assert(tls_suffix()[3] == 's');
        }
    }
}

/// Writing the endpoint that a text spells gives the text back, exactly,
/// whenever the text is one that a well-formed endpoint is written as.
pub proof fn text_round_trip(t: Seq<char>)
    requires
        exists|a: AddressView| a.address.well_formed() && endpoint_text(a) == t,
    ensures
        endpoint_parsed(t) is Ok,
        endpoint_text(endpoint_parsed(t)->Ok_0) == t,
{
    let a = choose|a: AddressView| a.address.well_formed() && endpoint_text(a) == t;
    endpoint_round_trip(a);
}

/// Writing the endpoint that a text spells gives the text back, exactly,
/// for every text whose address, secured or not, is written plainly.
pub proof fn plain_endpoint_round_trip(t: Seq<char>)
    requires
        is_plain_text(address_part(t)),
    ensures
        endpoint_parsed(t) is Ok,
        endpoint_text(endpoint_parsed(t)->Ok_0) == t,
{
    plain_text_round_trip(address_part(t));
    if has_tls_suffix(t) {
        assert(t =~= t.take(t.len() - 4) + t.skip(t.len() - 4));
    }
}

/// An endpoint read from a text whose port has no plus sign before it reads
/// back from its own text as the same endpoint.
pub proof fn parsed_endpoint_reads_back(t: Seq<char>)
    requires
        endpoint_parsed(t) is Ok,
        port_parsed(port_part(address_part(t))) is Some,
    ensures
        endpoint_parsed(endpoint_text(endpoint_parsed(t)->Ok_0)) == endpoint_parsed(t),
{
    parsed_address_is_well_formed(address_part(t));
    endpoint_round_trip(endpoint_parsed(t)->Ok_0);
}

/// The text of an endpoint whose address is well formed is written plainly:
/// so the texts that reading and writing give back are exactly those whose
/// address is written plainly.
pub proof fn endpoint_text_is_plain(a: AddressView)
    requires
        a.address.well_formed(),
    ensures
        is_plain_text(address_part(endpoint_text(a))),
{
    let body = address_text(a.address);
    let t = endpoint_text(a);
    lemma_address_round_trip(a.address);
    lemma_address_text_is_plain(a.address);
    if a.tls {
        assert(t.skip(t.len() - 4) =~= tls_suffix());
        assert(t.take(t.len() - 4) =~= body);
    } else {
        if t.len() >= 4 {
            assert(t.skip(t.len() - 4)[3] == t.last());
            assert(tls_suffix()[3] == 's');
        }
    }
}

} // verus!

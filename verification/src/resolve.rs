//! Decoding with lookups: addresses of the key and actor protocols are
//! decoded by asking a node for the ID address that stands for them. The
//! node is asked outside; what is asked, and when to stop, is decided here.

use vstd::prelude::*;

use crate::address::{
    decode,
    decode_spec,
    network_of,
    protocol_of,
    Address,
    AddressError,
    AddressView,
    Protocol,
};

verus! {

/// Where the decoding of an address stands.
#[derive(Debug, Clone, PartialEq, Eq)]
pub enum Resolution {
    /// Decoded.
    Resolved(Address),
    /// Ask the node for the ID address of `text`; `hops_left` more lookups
    /// may follow this one.
    Lookup { text: String, hops_left: usize },
    /// Refused.
    Failed(AddressError),
}

/// A resolution as a mathematical value.
pub enum ResolutionView {
    Resolved(AddressView),
    Lookup { text: Seq<char>, hops_left: usize },
    Failed(AddressError),
}

impl View for Resolution {
    type V = ResolutionView;

    open spec fn view(&self) -> ResolutionView {
        match *self {
            Resolution::Resolved(a) => ResolutionView::Resolved(a@),
            Resolution::Lookup { text, hops_left } => ResolutionView::Lookup {
                text: text@,
                hops_left,
            },
            Resolution::Failed(e) => ResolutionView::Failed(e),
        }
    }
}

/// Whether `text` names a network and one of the protocols that are decoded
/// by a lookup.
pub open spec fn needs_lookup(text: Seq<char>) -> bool {
    &&& text.len() >= 3
    &&& network_of(text[0]) is Some
    &&& match protocol_of(text[1]) {
        Some(Protocol::Secp256k1) => true,
        Some(Protocol::Actor) => true,
        Some(Protocol::Bls) => true,
        _ => false,
    }
}

/// What is done with `text` when `hops` lookups are still allowed: a text
/// that needs a lookup is looked up if one is allowed and refused with
/// `RPCFailure` if none is; any other text is decoded here.
pub open spec fn resolution_spec(text: Seq<char>, hops: usize) -> ResolutionView {
    if needs_lookup(text) {
        if hops > 0 {
            ResolutionView::Lookup { text, hops_left: (hops - 1) as usize }
        } else {
            ResolutionView::Failed(AddressError::RPCFailure)
        }
    } else {
        match decode_spec(text) {
            Ok(a) => ResolutionView::Resolved(a),
            Err(e) => ResolutionView::Failed(e),
        }
    }
}

/// What follows a lookup that was made with `hops_left` more allowed: a
/// lookup that failed refuses the address with `RPCFailure`; its answer is
/// treated as the text was.
pub open spec fn continue_spec(hops_left: usize, answer: Option<Seq<char>>) -> ResolutionView {
    match answer {
        None => ResolutionView::Failed(AddressError::RPCFailure),
        Some(text) => resolution_spec(text, hops_left),
    }
}

/// The texts that need a lookup are those that `decode` refuses with
/// `RPCFailure`.
pub proof fn lemma_needs_lookup(text: Seq<char>)
    ensures
        needs_lookup(text) <==> decode_spec(text) == Err::<AddressView, AddressError>(
            AddressError::RPCFailure,
        ),
{
}

/// Starts the decoding of `text` with at most `max_hops` lookups.
pub fn begin_resolution(text: &str, max_hops: usize) -> (res: Resolution)
    ensures
        res@ == resolution_spec(text@, max_hops),
{
    proof {
        lemma_needs_lookup(text@);
    }
    match decode(text) {
        Ok(address) => Resolution::Resolved(address),
        Err(AddressError::RPCFailure) => {
            if max_hops > 0 {
                Resolution::Lookup { text: text.to_owned(), hops_left: max_hops - 1 }
            } else {
                Resolution::Failed(AddressError::RPCFailure)
            }
        },
        Err(e) => Resolution::Failed(e),
    }
}

/// Goes on after a lookup that was made with `hops_left` more allowed.
/// `answer` is the text that the node returned, `None` where the lookup
/// failed. A lookup that follows has fewer hops left, so at most as many
/// lookups are made as the decoding was started with.
pub fn continue_resolution(hops_left: usize, answer: Option<&str>) -> (res: Resolution)
    ensures
        res@ == continue_spec(
            hops_left,
            match answer {
                Some(text) => Some(text@),
                None => None,
            },
        ),
        match res {
            Resolution::Lookup { text, hops_left: next } => next < hops_left,
            _ => true,
        },
{
    match answer {
        None => Resolution::Failed(AddressError::RPCFailure),
        Some(text) => begin_resolution(text, hops_left),
    }
}

} // verus!

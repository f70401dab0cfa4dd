//! Accounts as they are stored.

use crate::accessor::Decodable;
use crate::codec::{parse_fixed, take_fixed};
use crate::records::ACCOUNT_ID_LEN;
use vstd::prelude::*;

verus! {

/// The identifier of an account: `ACCOUNT_ID_LEN` bytes.
#[derive(Debug, Clone, PartialEq, Eq)]
pub struct AccountId {
    /// The bytes of the identifier.
    pub bytes: Vec<u8>,
}

impl View for AccountId {
    type V = Seq<u8>;

    open spec fn view(&self) -> Seq<u8> {
        self.bytes@
    }
}

impl Decodable for AccountId {
    /// Stored as its bytes, without a length.
    open spec fn decoded(bytes: Seq<u8>) -> Option<Seq<u8>> {
        match parse_fixed(bytes, ACCOUNT_ID_LEN as nat) {
            Some((id, _)) => Some(id),
            None => None,
        }
    }

    fn decode(bytes: &[u8]) -> (r: Option<AccountId>) {
        match take_fixed(bytes, ACCOUNT_ID_LEN) {
            Some((id, _)) => Some(AccountId { bytes: id }),
            None => None,
        }
    }
}

} // verus!

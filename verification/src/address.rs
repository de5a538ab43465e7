//! Addresses of XMPP accounts, as the `jid` crate reads them.

use vstd::prelude::*;

verus! {

/// The bare JID of an address: the address as the `jid` crate normalises
/// it, without its resource. `None` for a text that is no JID.
pub uninterp spec fn bare_jid(address: Seq<char>) -> Option<Seq<char>>;

/// Parses `address` with `jid::Jid::new` and drops the resource of what was
/// read with `Jid::into_bare`. Believed, not proved: the text that comes
/// back is `bare_jid` of the address, and nothing comes back exactly where
/// `Jid::new` refuses the address. Two bare JIDs are equal as the crate
/// compares them exactly if these texts are equal.
#[verifier::external_body]
pub(crate) fn parse_bare_jid(address: &str) -> (bare: Option<String>)
    ensures
        match bare {
            Some(text) => bare_jid(address@) == Some(text@),
            None => bare_jid(address@) is None,
        },
{
    match jid::Jid::new(address) {
        Ok(parsed) => Some(parsed.into_bare().into_inner()),
        Err(_) => None,
    }
}

} // verus!

//! The `ip-address` field of a spec.

use vstd::prelude::*;

verus! {

/// Which address of a node is used to reach it.
///
/// Omitting the field is equivalent to `private`.
#[derive(Debug, Clone, Copy, PartialEq, Eq, Structural)]
pub enum IpAddressType {
    Public,
    Private,
}

impl Default for IpAddressType {
    fn default() -> (r: Self)
        ensures
            r == IpAddressType::Private,
    {
        IpAddressType::Private
    }
}

/// The configuration value that stands for an address type.
pub open spec fn ip_address_text(ip: IpAddressType) -> Seq<char> {
    match ip {
        IpAddressType::Public => "public"@,
        IpAddressType::Private => "private"@,
    }
}

impl IpAddressType {
    /// The configuration value that stands for this address type.
    pub fn to_string(&self) -> (r: String)
        ensures
            r@ == ip_address_text(*self),
    {
        match self {
            IpAddressType::Public => "public".to_owned(),
            IpAddressType::Private => "private".to_owned(),
        }
    }
}

/// The two address types have different values in a configuration, and a field
/// that is left out is private.
pub proof fn law_address_types_differ(ip: IpAddressType, r: String)
    requires
        call_ensures(IpAddressType::to_string, (&ip,), r),
    ensures
        ip == IpAddressType::Public <==> r@ == "public"@,
        ip == IpAddressType::Private <==> r@ == "private"@,
{
    reveal_strlit("public");
    reveal_strlit("private");
    assert("public"@.len() != "private"@.len());
}

} // verus!

//! Identity of one managed service instance and the derivation of its
//! init-system unit name.

use vstd::prelude::*;

verus! {

/// The key identifying one managed service instance.  It is in one-to-one
/// correspondence with a configured chat, so the chat's numeric identifier
/// serves as the key.
#[derive(PartialEq, Eq, Structural, Clone, Copy, Debug)]
pub struct ServiceIdentity {
    pub chat_id: i64,
}

/// The fixed part in front of the instance name in the unit name.
pub open spec fn unit_prefix() -> Seq<u8> {
    seq![
        'm' as u8, 'i' as u8, 'n' as u8, 'e' as u8, 'c' as u8, 'r' as u8, 'a' as u8, 'f' as u8,
        't' as u8, '-' as u8, 's' as u8, 'e' as u8, 'r' as u8, 'v' as u8, 'e' as u8, 'r' as u8,
        '@' as u8,
    ]
}

/// The fixed part after the instance name in the unit name.
pub open spec fn unit_suffix() -> Seq<u8> {
    seq!['.' as u8, 's' as u8, 'e' as u8, 'r' as u8, 'v' as u8, 'i' as u8, 'c' as u8, 'e' as u8]
}

/// The init-system unit name for a service instance: the fixed naming
/// template around the configured instance name.
pub fn unit_name_for(server: &[u8]) -> (r: Vec<u8>)
    ensures
        r@ == unit_prefix() + server@ + unit_suffix(),
{
    let mut v: Vec<u8> = Vec::new();
    v.push('m' as u8);
    v.push('i' as u8);
    v.push('n' as u8);
    v.push('e' as u8);
    v.push('c' as u8);
    v.push('r' as u8);
    v.push('a' as u8);
    v.push('f' as u8);
    v.push('t' as u8);
    v.push('-' as u8);
    v.push('s' as u8);
    v.push('e' as u8);
    v.push('r' as u8);
    v.push('v' as u8);
    v.push('e' as u8);
    v.push('r' as u8);
    v.push('@' as u8);
    assert(v@ =~= unit_prefix());
    v.extend_from_slice(server);
    v.push('.' as u8);
    v.push('s' as u8);
    v.push('e' as u8);
    v.push('r' as u8);
    v.push('v' as u8);
    v.push('i' as u8);
    v.push('c' as u8);
    v.push('e' as u8);
    assert(v@ =~= unit_prefix() + server@ + unit_suffix());
    v
}

} // verus!

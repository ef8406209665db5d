//! Account ids as another plugin builds them.
use vstd::prelude::*;

use crate::proto::{AccountId, IdView};

verus! {

/// The 16 bytes of a uuid given as its high and low halves, big-endian.
pub open spec fn uuid_bytes(high: u64, low: u64) -> Seq<u8> {
    Seq::new(
        16,
        |i: int|
            if i < 8 {
                ((high >> ((56 - 8 * i) as u64)) & 0xff) as u8
            } else {
                ((low >> ((120 - 8 * i) as u64)) & 0xff) as u8
            },
    )
}

/// The bytes of a uuid given as its high and low halves, big-endian.
pub fn uuid_to_bytes(high: u64, low: u64) -> (r: [u8; 16])
    ensures
        r@ == uuid_bytes(high, low),
{
    let mut r = [0u8;16];
    let mut i: usize = 0;
    while i < 16
        invariant
            i <= 16,
            forall|j: int| 0 <= j < i ==> r@[j] == uuid_bytes(high, low)[j],
        decreases 16 - i,
    {
        let b = if i < 8 {
            ((high >> ((56 - 8 * i) as u64)) & 0xff) as u8
        } else {
            ((low >> ((120 - 8 * i) as u64)) & 0xff) as u8
        };
        r[i] = b;
        i = i + 1;
    }
    assert(r@ =~= uuid_bytes(high, low));
    r
}

/// The account of the player with the uuid whose halves are `high` and `low`.
pub fn player(high: u64, low: u64) -> (r: AccountId)
    ensures
        r@ == Some(IdView::Player(uuid_bytes(high, low))),
{
    AccountId::player(uuid_to_bytes(high, low))
}

/// A named account. Use your own plugin name as the namespace.
pub fn named(namespace: &str, key: &str) -> (r: AccountId)
    ensures
        r@ == Some(IdView::Named(namespace@ + ":"@ + key@)),
{
    AccountId::named(namespace, key)
}

} // verus!

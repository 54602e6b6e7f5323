//! The state root: the digest of a channel's balances that validators sign.
//!
//! The balances become leaves, one per address in ascending order of the
//! addresses; the leaves are hashed pairwise up to the balance root; the
//! balance root is hashed together with the channel's id. Since the leaves
//! follow the order of the addresses, the root depends on the balances alone
//! and not on the order in which they came to be.

use crate::primitives::balances_map::BalancesMap;
use crate::primitives::big_num::{be_word, pow256, zeros};
use crate::primitives::channel::Channel;
use crate::primitives::encoding::{from_hex, join_bytes, keccak, keccak256, unhex};
use crate::primitives::error::DomainError;
use crate::primitives::string_map::{is_key_order, key_order};
use vstd::prelude::*;
use vstd::string::*;

verus! {

/// The bytes that an address stands for: what its hexadecimal digits spell
/// where it is `0x` followed by such digits, and else its text in UTF-8.
pub open spec fn address_bytes(address: Seq<char>) -> Seq<u8> {
    if address.len() >= 2 && address[0] == '0' && address[1] == 'x' && unhex(
        address.subrange(2, address.len() as int),
    ).is_some() {
        unhex(address.subrange(2, address.len() as int)).unwrap()
    } else {
        vstd::utf8::encode_utf8(address)
    }
}

/// An address as a word of 32 bytes, filled up with zeros in front. An
/// address of more than 32 bytes has no word.
pub open spec fn address_word(address: Seq<char>) -> Option<Seq<u8>> {
    let bytes = address_bytes(address);
    if bytes.len() <= 32 {
        Some(zeros((32 - bytes.len()) as nat) + bytes)
    } else {
        None
    }
}

/// An amount as a word of 32 bytes, most significant byte first. An amount
/// of 2 to the power 256 or more has no word.
pub open spec fn amount_word(amount: nat) -> Option<Seq<u8>> {
    if amount < pow256(32) {
        Some(be_word(amount, 32))
    } else {
        None
    }
}

/// Whether the entry of `address` with `amount` can be made a leaf.
pub open spec fn leaf_exists(address: Seq<char>, amount: nat) -> bool {
    address_word(address).is_some() && amount_word(amount).is_some()
}

/// The leaf of one entry: the digest of its address word followed by its
/// amount word.
pub open spec fn leaf(address: Seq<char>, amount: nat) -> Seq<u8> {
    keccak256(address_word(address).unwrap() + amount_word(amount).unwrap())
}

/// Whether all entries of `m` can be made leaves.
pub open spec fn hashable(m: Map<Seq<char>, nat>) -> bool {
    forall|k: Seq<char>| #[trigger] m.dom().contains(k) ==> leaf_exists(k, m[k])
}

/// The leaves of `m`, in ascending order of the addresses.
pub open spec fn leaves(m: Map<Seq<char>, nat>) -> Seq<Seq<u8>> {
    key_order(m.dom()).map_values(|k: Seq<char>| leaf(k, m[k]))
}

/// The level above `level`: each pair of neighbours hashed together, a last
/// one without neighbour carried up as it is.
pub open spec fn next_level(level: Seq<Seq<u8>>) -> Seq<Seq<u8>> {
    Seq::new(
        ((level.len() + 1) / 2) as nat,
        |i: int|
            if 2 * i + 1 < level.len() {
                keccak256(level[2 * i] + level[2 * i + 1])
            } else {
                level[2 * i]
            },
    )
}

/// The root of the tree over `level`: 32 bytes of zero where there is no
/// leaf, the leaf itself where there is one, and else the root of the level
/// above.
pub open spec fn merkle_root(level: Seq<Seq<u8>>) -> Seq<u8>
    decreases level.len(),
{
    if level.len() == 0 {
        zeros(32)
    } else if level.len() == 1 {
        level[0]
    } else {
        merkle_root(next_level(level))
    }
}

/// The root of the balances `m`.
pub open spec fn balance_root(m: Map<Seq<char>, nat>) -> Seq<u8> {
    merkle_root(leaves(m))
}

/// The state root of the balances `m` on the channel with id `channel_id`.
pub open spec fn state_root(channel_id: Seq<u8>, m: Map<Seq<char>, nat>) -> Seq<u8> {
    keccak256(keccak256(channel_id + balance_root(m)))
}

/// The views of the rows of a table of bytes.
pub open spec fn rows(table: Seq<Vec<u8>>) -> Seq<Seq<u8>> {
    table.map_values(|row: Vec<u8>| row@)
}

/// `n` bytes of zero.
pub fn zero_bytes(n: usize) -> (r: Vec<u8>)
    ensures
        r@ == zeros(n as nat),
{
    let mut out: Vec<u8> = Vec::new();
    let mut i: usize = 0;
    while i < n
        invariant
            i <= n,
            out@ == zeros(i as nat),
        decreases n - i,
    {
        out.push(0u8);
        assert(out@ =~= zeros((i + 1) as nat));
        i = i + 1;
    }
    out
}

/// The word of an address, if it has one.
pub fn address_to_word(address: &str) -> (r: Option<Vec<u8>>)
    ensures
        r.is_some() <==> address_word(address@).is_some(),
        r.is_some() ==> r.unwrap()@ == address_word(address@).unwrap(),
{
    let n: usize = address.unicode_len();
    let mut bytes: Option<Vec<u8>> = None;
    if n >= 2 && address.get_char(0) == '0' && address.get_char(1) == 'x' {
        bytes = from_hex(address.substring_char(2, n));
    }
    let bytes = match bytes {
        Some(b) => b,
        None => address.as_bytes_vec(),
    };
    if bytes.len() <= 32 {
        let pad = zero_bytes(32 - bytes.len());
        Some(join_bytes(&pad, &bytes))
    } else {
        None
    }
}

/// The root of the tree over `leaves`.
pub fn merkle_root_of(leaves: Vec<Vec<u8>>) -> (r: Vec<u8>)
    ensures
        r@ == merkle_root(rows(leaves@)),
{
    let mut level = leaves;
    while level.len() > 1
        invariant
            merkle_root(rows(level@)) == merkle_root(rows(leaves@)),
        decreases level.len(),
    {
        let n: usize = level.len();
        let ghost above = next_level(rows(level@));
        let count: usize = n / 2 + n % 2;
        let mut next: Vec<Vec<u8>> = Vec::new();
        let mut i: usize = 0;
        while i < count
            invariant
                n == level@.len(),
                n > 1,
                count == (n + 1) / 2,
                above == next_level(rows(level@)),
                i <= count,
                next@.len() == i,
                forall|j: int| 0 <= j < i ==> (#[trigger] next@[j])@ == above[j],
            decreases count - i,
        {
            if 2 * i + 1 < n {
                let pair = join_bytes(&level[2 * i], &level[2 * i + 1]);
                next.push(keccak(&pair));
            } else {
                next.push(level[2 * i].clone());
            }
            i = i + 1;
        }
        proof {
            assert(rows(next@) =~= above);
        }
        level = next;
    }
    if level.len() == 0 {
        zero_bytes(32)
    } else {
        level[0].clone()
    }
}

/// The state root of `balances` on `channel`: 32 bytes.
///
/// Fails exactly when some address has no word of 32 bytes, or some amount
/// needs more than 32 bytes.
pub fn get_state_root_hash(channel: &Channel, balances: &BalancesMap) -> (r: Result<
    Vec<u8>,
    DomainError,
>)
    ensures
        r.is_ok() <==> hashable(balances@),
        r.is_ok() ==> r.unwrap()@ == state_root(channel.id.bytes@, balances@),
        r.is_ok() ==> r.unwrap()@.len() == 32,
        r.is_err() ==> r.unwrap_err() is InvalidArgument,
{
    let n: usize = balances.len();
    let ghost keys = key_order(balances@.dom());
    let ghost all = leaves(balances@);
    let mut made: Vec<Vec<u8>> = Vec::new();
    let mut i: usize = 0;
    while i < n
        invariant
            n == balances@.dom().len(),
            n == keys.len(),
            keys == key_order(balances@.dom()),
            is_key_order(balances@.dom(), keys),
            all == leaves(balances@),
            i <= n,
            made@.len() == i,
            forall|j: int| 0 <= j < i ==> leaf_exists(#[trigger] keys[j], balances@[keys[j]]),
            forall|j: int| 0 <= j < i ==> (#[trigger] made@[j])@ == all[j],
        decreases n - i,
    {
        let key = balances.key_at(i);
        let amount = balances.amount_at(i);
        let address = match address_to_word(key.as_str()) {
            Some(word) => word,
            None => {
                return Err(
                    DomainError::InvalidArgument("an address is longer than 32 bytes".to_owned()),
                );
            },
        };
        let value = match amount.to_word(32) {
            Some(word) => word,
            None => {
                return Err(
                    DomainError::InvalidArgument("an amount is longer than 32 bytes".to_owned()),
                );
            },
        };
        let entry = join_bytes(&address, &value);
        made.push(keccak(&entry));
        i = i + 1;
    }
    proof {
        assert forall|k: Seq<char>| #[trigger] balances@.dom().contains(k) implies leaf_exists(
            k,
            balances@[k],
        ) by {
            assert(keys.contains(k));
            let j = choose|j: int| 0 <= j < keys.len() && keys[j] == k;
            assert(leaf_exists(keys[j], balances@[keys[j]]));
        }
        assert(rows(made@) =~= all);
    }
    let root = merkle_root_of(made);
    let id: Vec<u8> = channel.id.to_vec();
    let inner = keccak(&join_bytes(&id, &root));
    Ok(keccak(&inner))
}

} // verus!

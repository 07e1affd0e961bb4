//! Fixed-width values and the identifiers of blocks.
use crate::text::hex_char;
use vstd::arithmetic::power::pow;
use vstd::prelude::*;

verus! {

/// A sequence of values, each replaced by its view.
pub open spec fn views<T: View>(s: Seq<T>) -> Seq<T::V> {
    s.map_values(|t: T| t@)
}

/// A 32-byte word in big-endian halves: a hash, a storage slot.
#[derive(Clone, Copy, Debug, PartialEq, Eq, Structural)]
pub struct B256 {
    pub hi: u128,
    pub lo: u128,
}

impl B256 {
    /// The word as a pair, ordered as its bytes are.
    pub open spec fn pair(self) -> (u128, u128) {
        (self.hi, self.lo)
    }

    /// The hexadecimal digit at position `i` of the 64, most significant first.
    pub open spec fn nibble(self, i: int) -> int {
        if i < 32 {
            (self.hi as int / pow(16, (31 - i) as nat)) % 16
        } else {
            (self.lo as int / pow(16, (63 - i) as nat)) % 16
        }
    }

    /// The word in text: `0x` and 64 digits in lower case.
    pub open spec fn text(self) -> Seq<char> {
        seq!['0', 'x'] + Seq::new(64, |i: int| hex_char(self.nibble(i)))
    }

    pub fn key(&self) -> (k: (u128, u128))
        ensures
            k == self.pair(),
    {
        (self.hi, self.lo)
    }

    /// The word all of whose bytes are zero.
    pub fn zero() -> (z: B256)
        ensures
            z == (B256 { hi: 0, lo: 0 }),
    {
        B256 { hi: 0, lo: 0 }
    }
}

/// `Display` of `alloy::primitives::B256`: without the alternate flag it writes `0x` and the
/// word's 64 hexadecimal digits in lower case.
#[verifier::external_body]
pub(crate) fn hash_text(hash: &B256) -> (text: String)
    ensures
        text@ == hash.text(),
{
    let bytes = [hash.hi.to_be_bytes(), hash.lo.to_be_bytes()].concat();
    alloy::primitives::B256::from_slice(&bytes).to_string()
}

/// `alloy_trie::KECCAK_EMPTY`: the Keccak-256 hash of no bytes.
#[verifier::external_body]
pub(crate) fn keccak_empty() -> (hash: B256)
    ensures
        hash == keccak_of_nothing(),
{
    let bytes = alloy_trie::KECCAK_EMPTY.0;
    let (hi, lo) = bytes.split_at(16);
    B256 {
        hi: u128::from_be_bytes(hi.try_into().unwrap()),
        lo: u128::from_be_bytes(lo.try_into().unwrap()),
    }
}

/// The Keccak-256 hash of no bytes: the code hash of an account without code.
pub open spec fn keccak_of_nothing() -> B256 {
    B256 {
        hi: 0xc5d2460186f7233c927e7db2dcc703c0,
        lo: 0xe500b653ca82273b7bfad8045d85a470,
    }
}

/// A 20-byte account address: the first 4 bytes, then the other 16.
#[derive(Clone, Copy, Debug, PartialEq, Eq, Structural)]
pub struct Address {
    pub hi: u32,
    pub lo: u128,
}

impl Address {
    pub open spec fn pair(self) -> (u32, u128) {
        (self.hi, self.lo)
    }

    pub fn key(&self) -> (k: (u32, u128))
        ensures
            k == self.pair(),
    {
        (self.hi, self.lo)
    }

    /// The address all of whose bytes are zero.
    pub fn zero() -> (z: Address)
        ensures
            z == (Address { hi: 0, lo: 0 }),
    {
        Address { hi: 0, lo: 0 }
    }
}

/// The text that `Display` of `alloy::primitives::Address` writes for the address made of
/// these two parts.
pub uninterp spec fn checksum_text(hi: u32, lo: u128) -> Seq<char>;

/// A hexadecimal digit, in either case.
pub open spec fn is_hex_digit(c: char) -> bool {
    ('0' <= c && c <= '9') || ('a' <= c && c <= 'f') || ('A' <= c && c <= 'F')
}

/// `Display` of `alloy::primitives::Address`: without the alternate flag it writes `0x` and the
/// 40 hexadecimal digits of the address, with the letters in the case that the EIP-55 checksum
/// gives. Which letters are in upper case is left to the name.
#[verifier::external_body]
pub(crate) fn address_text(address: &Address) -> (text: String)
    ensures
        text@ == checksum_text(address.hi, address.lo),
        text@.len() == 42,
        text@[0] == '0',
        text@[1] == 'x',
        forall|i: int| 2 <= i < 42 ==> is_hex_digit(#[trigger] text@[i]),
{
    let mut bytes = address.hi.to_be_bytes().to_vec();
    bytes.extend_from_slice(&address.lo.to_be_bytes());
    alloy::primitives::Address::from_slice(&bytes).to_string()
}

/// A 256-bit unsigned number in two halves.
#[derive(Clone, Copy, Debug, PartialEq, Eq, Structural)]
pub struct U256 {
    pub hi: u128,
    pub lo: u128,
}

impl U256 {
    /// The number.
    pub open spec fn value(self) -> nat {
        (self.hi * 0x1_0000_0000_0000_0000_0000_0000_0000_0000 + self.lo) as nat
    }

    pub fn from_u64(n: u64) -> (u: U256)
        ensures
            u.value() == n,
            u.hi == 0,
    {
        U256 { hi: 0, lo: n as u128 }
    }
}

/// A byte string.
#[derive(Debug)]
pub struct Bytes {
    pub data: Vec<u8>,
}

impl View for Bytes {
    type V = Seq<u8>;

    open spec fn view(&self) -> Seq<u8> {
        self.data@
    }
}

impl Clone for Bytes {
    fn clone(&self) -> (r: Self)
        ensures
            r@ == self@,
    {
        let data = self.data.clone();
        assert(data@ =~= self.data@);
        Bytes { data }
    }
}

impl Bytes {
    /// No bytes.
    pub fn empty() -> (r: Self)
        ensures
            r@ == Seq::<u8>::empty(),
    {
        Bytes { data: Vec::new() }
    }

    /// Whether two byte strings hold the same bytes.
    pub fn same(&self, other: &Bytes) -> (r: bool)
        ensures
            r == (self@ == other@),
    {
        if self.data.len() != other.data.len() {
            return false;
        }
        let mut i: usize = 0;
        while i < self.data.len()
            invariant
                i <= self.data@.len(),
                self.data@.len() == other.data@.len(),
                forall|k: int| 0 <= k < i ==> self.data@[k] == other.data@[k],
            decreases self.data@.len() - i,
        {
            if self.data[i] != other.data[i] {
                return false;
            }
            i = i + 1;
        }
        assert(self@ =~= other@);
        true
    }
}

/// A list of byte strings, copied.
pub fn clone_list(list: &Vec<Bytes>) -> (r: Vec<Bytes>)
    ensures
        views(r@) == views(list@),
{
    let r = list.clone();
    assert(views(r@) =~= views(list@));
    r
}

/// A list of words, copied.
pub fn clone_words(words: &Vec<B256>) -> (r: Vec<B256>)
    ensures
        r@ == words@,
{
    let r = words.clone();
    assert(r@ =~= words@);
    r
}

/// A block named by its hash, and whether it must be on the canonical chain.
#[derive(Clone, Copy, Debug, PartialEq, Eq, Structural)]
pub struct RpcBlockHash {
    pub block_hash: B256,
    pub require_canonical: Option<bool>,
}

/// A block named by its height or by its place in the chain.
#[derive(Clone, Copy, Debug, PartialEq, Eq, Structural)]
pub enum BlockNumberOrTag {
    Latest,
    Finalized,
    Safe,
    Earliest,
    Pending,
    Number(u64),
}

/// A block named in any way.
#[derive(Clone, Copy, Debug, PartialEq, Eq, Structural)]
pub enum BlockId {
    Hash(RpcBlockHash),
    Number(BlockNumberOrTag),
}

impl BlockId {
    /// The block with this hash, on whatever branch it is.
    pub open spec fn of_hash(hash: B256) -> BlockId {
        BlockId::Hash(RpcBlockHash { block_hash: hash, require_canonical: None })
    }

    pub fn from_hash(hash: B256) -> (id: BlockId)
        ensures
            id == BlockId::of_hash(hash),
    {
        BlockId::Hash(RpcBlockHash { block_hash: hash, require_canonical: None })
    }

    pub fn is_finalized(&self) -> (r: bool)
        ensures
            r == (*self == BlockId::Number(BlockNumberOrTag::Finalized)),
    {
        matches!(self, BlockId::Number(BlockNumberOrTag::Finalized))
    }
}

} // verus!

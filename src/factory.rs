//! Factory kinds, their discovery event signatures, and factory records.

use vstd::prelude::*;

use crate::types::{Address, H256};

verus! {

/// The factory templates that discovery can recognise.
#[derive(Clone, Copy, Debug, PartialEq, Eq, Structural)]
pub enum DiscoverableFactory {
    UniswapV2Factory,
    UniswapV3Factory,
}

/// keccak256("PairCreated(address,address,address,uint256)")
pub open spec fn pair_created_bytes() -> Seq<u8> {
    seq![
        0x0du8, 0x36u8, 0x48u8, 0xbdu8, 0x0fu8, 0x6bu8, 0xa8u8, 0x01u8,
        0x34u8, 0xa3u8, 0x3bu8, 0xa9u8, 0x27u8, 0x5au8, 0xc5u8, 0x85u8,
        0xd9u8, 0xd3u8, 0x15u8, 0xf0u8, 0xadu8, 0x83u8, 0x55u8, 0xcdu8,
        0xdeu8, 0xfdu8, 0xe3u8, 0x1au8, 0xfau8, 0x28u8, 0xd0u8, 0xe9u8,
    ]
}

/// keccak256("PoolCreated(address,address,uint24,int24,address)")
pub open spec fn pool_created_bytes() -> Seq<u8> {
    seq![
        0x78u8, 0x3cu8, 0xcau8, 0x1cu8, 0x04u8, 0x12u8, 0xddu8, 0x0du8,
        0x69u8, 0x5eu8, 0x78u8, 0x45u8, 0x68u8, 0xc9u8, 0x6du8, 0xa2u8,
        0xe9u8, 0xc2u8, 0x2fu8, 0xf9u8, 0x89u8, 0x35u8, 0x7au8, 0x2eu8,
        0x8bu8, 0x1du8, 0x9bu8, 0x2bu8, 0x4eu8, 0x6bu8, 0x71u8, 0x18u8,
    ]
}

/// The discovery event signature of a kind, as bytes.
pub open spec fn signature_bytes(kind: DiscoverableFactory) -> Seq<u8> {
    match kind {
        DiscoverableFactory::UniswapV2Factory => pair_created_bytes(),
        DiscoverableFactory::UniswapV3Factory => pool_created_bytes(),
    }
}

/// The kind whose discovery event signature is `topic`, if any.
pub open spec fn kind_of_topic(topic: H256) -> Option<DiscoverableFactory> {
    if topic.bytes@ == pair_created_bytes() {
        Some(DiscoverableFactory::UniswapV2Factory)
    } else if topic.bytes@ == pool_created_bytes() {
        Some(DiscoverableFactory::UniswapV3Factory)
    } else {
        None
    }
}

/// The `PairCreated` event signature emitted by Uniswap V2 style factories.
pub fn pair_created_event_signature() -> (r: H256)
    ensures
        r.bytes@ == pair_created_bytes(),
{
    let r = H256 {
        bytes: [
            0x0d, 0x36, 0x48, 0xbd, 0x0f, 0x6b, 0xa8, 0x01,
            0x34, 0xa3, 0x3b, 0xa9, 0x27, 0x5a, 0xc5, 0x85,
            0xd9, 0xd3, 0x15, 0xf0, 0xad, 0x83, 0x55, 0xcd,
            0xde, 0xfd, 0xe3, 0x1a, 0xfa, 0x28, 0xd0, 0xe9,
        ],
    };
    assert(r.bytes@ =~= pair_created_bytes());
    r
}

/// The `PoolCreated` event signature emitted by Uniswap V3 style factories.
pub fn pool_created_event_signature() -> (r: H256)
    ensures
        r.bytes@ == pool_created_bytes(),
{
    let r = H256 {
        bytes: [
            0x78, 0x3c, 0xca, 0x1c, 0x04, 0x12, 0xdd, 0x0d,
            0x69, 0x5e, 0x78, 0x45, 0x68, 0xc9, 0x6d, 0xa2,
            0xe9, 0xc2, 0x2f, 0xf9, 0x89, 0x35, 0x7a, 0x2e,
            0x8b, 0x1d, 0x9b, 0x2b, 0x4e, 0x6b, 0x71, 0x18,
        ],
    };
    assert(r.bytes@ =~= pool_created_bytes());
    r
}

impl DiscoverableFactory {
    /// The event signature that a factory of this kind emits when it creates a child.
    pub fn discovery_event_signature(&self) -> (r: H256)
        ensures
            r.bytes@ == signature_bytes(*self),
            kind_of_topic(r) == Some(*self),
    {
        match self {
            DiscoverableFactory::UniswapV2Factory => pair_created_event_signature(),
            DiscoverableFactory::UniswapV3Factory => {
                let r = pool_created_event_signature();
                assert(r.bytes@[0] != pair_created_bytes()[0]);
                r
            },
        }
    }

    /// The kind whose discovery event signature is `topic`, if any.
    pub fn from_topic(topic: &H256) -> (r: Option<DiscoverableFactory>)
        ensures
            r == kind_of_topic(*topic),
    {
        let v2 = pair_created_event_signature();
        let v3 = pool_created_event_signature();
        proof {
            broadcast use vstd::array::axiom_array_ext_equal;
            if topic.bytes@ == v2.bytes@ {
                assert(topic.bytes == v2.bytes);
            }
            if topic.bytes@ == v3.bytes@ {
                assert(topic.bytes == v3.bytes);
            }
        }
        if topic.same(&v2) {
            Some(DiscoverableFactory::UniswapV2Factory)
        } else if topic.same(&v3) {
            Some(DiscoverableFactory::UniswapV3Factory)
        } else {
            None
        }
    }
}

/// The discovery event signatures of `kinds`, in the same order.
pub fn event_signatures(kinds: &Vec<DiscoverableFactory>) -> (r: Vec<H256>)
    ensures
        r@.len() == kinds@.len(),
        forall|i: int| 0 <= i < kinds@.len() ==> r@[i].bytes@ == signature_bytes(#[trigger] kinds@[i]),
{
    let mut r: Vec<H256> = Vec::new();
    let mut i: usize = 0;
    while i < kinds.len()
        invariant
            0 <= i <= kinds@.len(),
            r@.len() == i,
            forall|j: int| 0 <= j < i ==> r@[j].bytes@ == signature_bytes(#[trigger] kinds@[j]),
        decreases kinds@.len() - i,
    {
        r.push(kinds[i].discovery_event_signature());
        i = i + 1;
    }
    r
}

/// A Uniswap V2 style factory.
#[derive(Clone, Copy, Debug, PartialEq, Eq)]
pub struct UniswapV2Factory {
    pub address: Address,
    pub creation_block: u64,
}

/// A Uniswap V3 style factory.
#[derive(Clone, Copy, Debug, PartialEq, Eq)]
pub struct UniswapV3Factory {
    pub address: Address,
    pub creation_block: u64,
}

/// A discovered factory, tagged by kind.
#[derive(Clone, Copy, Debug, PartialEq, Eq)]
pub enum Factory {
    UniswapV2Factory(UniswapV2Factory),
    UniswapV3Factory(UniswapV3Factory),
}

/// The record of a factory of `kind` at `address`, first seen at `creation_block`.
pub open spec fn factory_record(kind: DiscoverableFactory, address: Address, creation_block: u64) -> Factory {
    match kind {
        DiscoverableFactory::UniswapV2Factory => Factory::UniswapV2Factory(
            UniswapV2Factory { address, creation_block },
        ),
        DiscoverableFactory::UniswapV3Factory => Factory::UniswapV3Factory(
            UniswapV3Factory { address, creation_block },
        ),
    }
}

impl Factory {
    pub open spec fn kind_spec(&self) -> DiscoverableFactory {
        match self {
            Factory::UniswapV2Factory(_) => DiscoverableFactory::UniswapV2Factory,
            Factory::UniswapV3Factory(_) => DiscoverableFactory::UniswapV3Factory,
        }
    }

    pub open spec fn address_spec(&self) -> Address {
        match self {
            Factory::UniswapV2Factory(f) => f.address,
            Factory::UniswapV3Factory(f) => f.address,
        }
    }

    pub open spec fn creation_block_spec(&self) -> u64 {
        match self {
            Factory::UniswapV2Factory(f) => f.creation_block,
            Factory::UniswapV3Factory(f) => f.creation_block,
        }
    }

    /// Builds the record of a factory of `kind` at `address`, first seen at `creation_block`.
    pub fn new(kind: DiscoverableFactory, address: Address, creation_block: u64) -> (r: Factory)
        ensures
            r == factory_record(kind, address, creation_block),
            r.kind_spec() == kind,
            r.address_spec() == address,
            r.creation_block_spec() == creation_block,
    {
        match kind {
            DiscoverableFactory::UniswapV2Factory => Factory::UniswapV2Factory(
                UniswapV2Factory { address, creation_block },
            ),
            DiscoverableFactory::UniswapV3Factory => Factory::UniswapV3Factory(
                UniswapV3Factory { address, creation_block },
            ),
        }
    }

    /// The kind of this factory.
    pub fn kind(&self) -> (r: DiscoverableFactory)
        ensures
            r == self.kind_spec(),
    {
        match self {
            Factory::UniswapV2Factory(_) => DiscoverableFactory::UniswapV2Factory,
            Factory::UniswapV3Factory(_) => DiscoverableFactory::UniswapV3Factory,
        }
    }

    /// The address of this factory.
    pub fn address(&self) -> (r: Address)
        ensures
            r == self.address_spec(),
    {
        match self {
            Factory::UniswapV2Factory(f) => f.address,
            Factory::UniswapV3Factory(f) => f.address,
        }
    }

    /// The block at which this factory was first seen.
    pub fn creation_block(&self) -> (r: u64)
        ensures
            r == self.creation_block_spec(),
    {
        match self {
            Factory::UniswapV2Factory(f) => f.creation_block,
            Factory::UniswapV3Factory(f) => f.creation_block,
        }
    }
}

} // verus!

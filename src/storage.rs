//! The checkpoint: the last scanned block and, per factory address, its record
//! and the number of children observed so far.

use vstd::prelude::*;

use crate::factory::Factory;
use crate::types::Address;

verus! {

/// A factory known to the checkpoint, with the number of children it was seen to create.
#[derive(Clone, Copy, Debug, PartialEq, Eq)]
pub struct StoredFactory {
    pub address: Address,
    pub factory: Factory,
    pub amms: u64,
}

/// The persisted content of a checkpoint.
#[derive(Clone, Debug, PartialEq, Eq)]
pub struct DiscoverFactoriesEntry {
    pub last_block: u64,
    pub factories: Vec<StoredFactory>,
}

/// No address occurs twice.
pub open spec fn unique_addresses(fs: Seq<StoredFactory>) -> bool {
    forall|i: int, j: int|
        0 <= i < fs.len() && 0 <= j < fs.len() && i != j ==> fs[i].address != fs[j].address
}

/// `a` is the address of a stored factory.
pub open spec fn known(fs: Seq<StoredFactory>, a: Address) -> bool {
    exists|i: int| 0 <= i < fs.len() && fs[i].address == a
}

/// One more child, held at the largest count.
pub open spec fn bump(n: u64) -> u64 {
    if n < u64::MAX {
        (n + 1) as u64
    } else {
        n
    }
}

/// The factories after one more child of the factory at `a` (if any) was seen.
pub open spec fn incremented(fs: Seq<StoredFactory>, a: Address) -> Seq<StoredFactory> {
    fs.map_values(
        |e: StoredFactory|
            if e.address == a {
                StoredFactory { address: e.address, factory: e.factory, amms: bump(e.amms) }
            } else {
                e
            },
    )
}

/// The factories after registering `f` at `a` with no children, unless `a` is known already.
pub open spec fn with_factory(fs: Seq<StoredFactory>, a: Address, f: Factory) -> Seq<
    StoredFactory,
> {
    if known(fs, a) {
        fs
    } else {
        fs.push(StoredFactory { address: a, factory: f, amms: 0 })
    }
}

/// What a checkpoint holds.
pub struct CheckpointView {
    pub path: Seq<char>,
    pub last_block: u64,
    pub factories: Seq<StoredFactory>,
}

/// A checkpoint bound to the file it is saved to.
pub struct DiscoverFactoriesStorage {
    path: String,
    entry: DiscoverFactoriesEntry,
}

impl View for DiscoverFactoriesStorage {
    type V = CheckpointView;

    closed spec fn view(&self) -> CheckpointView {
        CheckpointView {
            path: self.path@,
            last_block: self.entry.last_block,
            factories: self.entry.factories@,
        }
    }
}

impl Default for DiscoverFactoriesStorage {
    /// An empty checkpoint at block 0, saved to `factories.bin`.
    fn default() -> (r: Self)
        ensures
            r@.path == "factories.bin"@,
            r@.last_block == 0,
            r@.factories.len() == 0,
            r.wf(),
    {
        DiscoverFactoriesStorage {
            path: "factories.bin".to_string(),
            entry: DiscoverFactoriesEntry { last_block: 0, factories: Vec::new() },
        }
    }
}

/// Whether no address occurs twice in `fs`.
pub fn has_unique_addresses(fs: &Vec<StoredFactory>) -> (r: bool)
    ensures
        r == unique_addresses(fs@),
{
    let mut i: usize = 0;
    while i < fs.len()
        invariant
            0 <= i <= fs@.len(),
            forall|a: int, b: int|
                0 <= a < i && 0 <= b < fs@.len() && a != b ==> fs@[a].address != fs@[b].address,
        decreases fs@.len() - i,
    {
        let mut j: usize = 0;
        while j < fs.len()
            invariant
                0 <= i < fs@.len(),
                0 <= j <= fs@.len(),
                forall|a: int, b: int|
                    0 <= a < i && 0 <= b < fs@.len() && a != b ==> fs@[a].address != fs@[b].address,
                forall|b: int| 0 <= b < j && b != i ==> fs@[i as int].address != fs@[b].address,
            decreases fs@.len() - j,
        {
            if j != i && fs[i].address.same(&fs[j].address) {
                return false;
            }
            j = j + 1;
        }
        i = i + 1;
    }
    true
}

impl DiscoverFactoriesStorage {
    /// No address occurs twice among the stored factories.
    pub open spec fn wf(&self) -> bool {
        unique_addresses(self@.factories)
    }

    /// A checkpoint saved to `path`, holding `factories` and `last_block`.
    pub fn new(path: &str, factories: Vec<StoredFactory>, last_block: u64) -> (r: Self)
        requires
            unique_addresses(factories@),
        ensures
            r.wf(),
            r@.path == path@,
            r@.last_block == last_block,
            r@.factories == factories@,
    {
        DiscoverFactoriesStorage {
            path: path.to_string(),
            entry: DiscoverFactoriesEntry { last_block, factories },
        }
    }

    /// The checkpoint saved to `path`, given what was read and decoded from it:
    /// `None` where reading or decoding failed. An entry that names an address twice
    /// is refused as corrupt too. Where nothing usable was read, the checkpoint is
    /// empty and starts at block 0.
    pub fn load_or_default(path: &str, loaded: Option<DiscoverFactoriesEntry>) -> (r: Self)
        ensures
            r.wf(),
            r@.path == path@,
            match loaded {
                Some(e) if unique_addresses(e.factories@) => r@.last_block == e.last_block
                    && r@.factories == e.factories@,
                _ => r@.last_block == 0 && r@.factories.len() == 0,
            },
    {
        match loaded {
            Some(e) => {
                if has_unique_addresses(&e.factories) {
                    DiscoverFactoriesStorage { path: path.to_string(), entry: e }
                } else {
                    DiscoverFactoriesStorage {
                        path: path.to_string(),
                        entry: DiscoverFactoriesEntry { last_block: 0, factories: Vec::new() },
                    }
                }
            },
            None => DiscoverFactoriesStorage {
                path: path.to_string(),
                entry: DiscoverFactoriesEntry { last_block: 0, factories: Vec::new() },
            },
        }
    }

    /// The file this checkpoint is saved to.
    pub fn path(&self) -> (r: &str)
        ensures
            r@ == self@.path,
    {
        self.path.as_str()
    }

    /// The content to save.
    pub fn entry(&self) -> (r: &DiscoverFactoriesEntry)
        ensures
            r.last_block == self@.last_block,
            r.factories@ == self@.factories,
    {
        &self.entry
    }

    /// Each stored factory with its child count, in storage order.
    pub fn get_factories(&self) -> (r: Vec<(Factory, u64)>)
        ensures
            r@.len() == self@.factories.len(),
            forall|i: int|
                0 <= i < r@.len() ==> #[trigger] r@[i] == (
                self@.factories[i].factory,
                self@.factories[i].amms,
            ),
    {
        let mut r: Vec<(Factory, u64)> = Vec::new();
        let mut i: usize = 0;
        while i < self.entry.factories.len()
            invariant
                0 <= i <= self@.factories.len(),
                self@.factories == self.entry.factories@,
                r@.len() == i,
                forall|j: int|
                    0 <= j < i ==> #[trigger] r@[j] == (
                    self@.factories[j].factory,
                    self@.factories[j].amms,
                ),
            decreases self@.factories.len() - i,
        {
            let e = self.entry.factories[i];
            r.push((e.factory, e.amms));
            i = i + 1;
        }
        r
    }

    /// The last block of the scan that the checkpoint records.
    pub fn get_last_block(&self) -> (r: u64)
        ensures
            r == self@.last_block,
    {
        self.entry.last_block
    }

    /// Records `last_block` as the point the scan resumes from; nothing else changes.
    pub fn set_last_block(&mut self, last_block: u64)
        ensures
            final(self)@ == (CheckpointView { last_block, ..old(self)@ }),
    {
        self.entry.last_block = last_block;
    }

    /// The position of the factory at `address`, if known.
    fn position(&self, address: &Address) -> (r: Option<usize>)
        ensures
            match r {
                Some(i) => i < self@.factories.len() && self@.factories[i as int].address
                    == *address,
                None => !known(self@.factories, *address),
            },
    {
        let mut i: usize = 0;
        while i < self.entry.factories.len()
            invariant
                0 <= i <= self@.factories.len(),
                self@.factories == self.entry.factories@,
                forall|j: int| 0 <= j < i ==> self@.factories[j].address != *address,
            decreases self@.factories.len() - i,
        {
            if self.entry.factories[i].address.same(address) {
                return Some(i);
            }
            i = i + 1;
        }
        None
    }

    /// Registers `factory` at `address` with no children. An address that is
    /// already known keeps its record and count.
    pub fn add_factory(&mut self, address: Address, factory: Factory)
        requires
            old(self).wf(),
        ensures
            final(self).wf(),
            final(self)@ == (CheckpointView {
                factories: with_factory(old(self)@.factories, address, factory),
                ..old(self)@
            }),
    {
        match self.position(&address) {
            Some(_) => {},
            None => {
                self.entry.factories.push(StoredFactory { address, factory, amms: 0 });
            },
        }
    }

    /// Counts one more child of the factory at `address` and returns true where
    /// that address is known; returns false and changes nothing where it is not.
    /// A count already at the largest value stays there.
    pub fn inc_amms(&mut self, address: Address) -> (r: bool)
        requires
            old(self).wf(),
        ensures
            final(self).wf(),
            r == known(old(self)@.factories, address),
            final(self)@ == (CheckpointView {
                factories: incremented(old(self)@.factories, address),
                ..old(self)@
            }),
    {
        match self.position(&address) {
            Some(i) => {
                let e = self.entry.factories[i];
                let amms = if e.amms < u64::MAX {
                    e.amms + 1
                } else {
                    e.amms
                };
                self.entry.factories.set(
                    i,
                    StoredFactory { address: e.address, factory: e.factory, amms },
                );
                proof {
                    assert(self@.factories =~= incremented(old(self)@.factories, address));
                }
                true
            },
            None => {
                proof {
                    assert(self@.factories =~= incremented(old(self)@.factories, address));
                }
                false
            },
        }
    }
}

} // verus!

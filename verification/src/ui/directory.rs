//! Which kinds of entries the directory shows.
use vstd::prelude::*;

use crate::ui::state::DirectoryKind;

verus! {

/// One bit for each kind that is shown.
#[derive(Debug, Clone, Copy, PartialEq, Eq, Structural)]
pub struct Filters {
    pub mask: u32,
}

pub open spec fn kind_bit(kind: DirectoryKind) -> u32 {
    match kind {
        DirectoryKind::Peer => 1,
        DirectoryKind::Propagation => 2,
        DirectoryKind::Rrc => 4,
        DirectoryKind::Node => 8,
        DirectoryKind::Other => 0,
    }
}

impl Default for Filters {
    fn default() -> (r: Self)
        ensures
            r.mask == 15,
    {
        Filters { mask: 15 }
    }
}

/// The letter behind which a kind is switched, with either case.
pub open spec fn key_bit(key: char) -> u32 {
    if key == 'p' || key == 'P' {
        1
    } else if key == 'o' || key == 'O' {
        2
    } else if key == 'r' || key == 'R' {
        4
    } else if key == 'n' || key == 'N' {
        8
    } else {
        0
    }
}

impl Filters {
    pub open spec fn shows(&self, kind: DirectoryKind) -> bool {
        self.mask & kind_bit(kind) != 0
    }

    /// Whether entries of a kind are shown; others never are.
    pub fn includes(&self, kind: DirectoryKind) -> (r: bool)
        ensures
            r == self.shows(kind),
            kind == DirectoryKind::Other ==> !r,
    {
        let bit: u32 = match kind {
            DirectoryKind::Peer => 1,
            DirectoryKind::Propagation => 2,
            DirectoryKind::Rrc => 4,
            DirectoryKind::Node => 8,
            DirectoryKind::Other => 0,
        };
        let mask: u32 = self.mask;
        assert(mask & 0 == 0) by (bit_vector);
        mask & bit != 0
    }

    /// Switches the kind behind a key. Says whether there is one.
    pub fn toggle(&mut self, key: char) -> (r: bool)
        ensures
            r == (key_bit(key) != 0),
            final(self).mask == old(self).mask ^ key_bit(key),
    {
        let bit: u32 = if key == 'p' || key == 'P' {
            1
        } else if key == 'o' || key == 'O' {
            2
        } else if key == 'r' || key == 'R' {
            4
        } else if key == 'n' || key == 'N' {
            8
        } else {
            0
        };
        self.mask = self.mask ^ bit;
        bit != 0
    }
}

/// A key switches its own kind and no other, and twice is not at all.
pub proof fn law_keys_switch_one_kind(mask: u32, key: char, kind: DirectoryKind)
    requires
        kind != DirectoryKind::Other,
    ensures
        (Filters { mask: mask ^ key_bit(key) }).shows(kind) == if key_bit(key) == kind_bit(kind) {
            !(Filters { mask }).shows(kind)
        } else {
            (Filters { mask }).shows(kind)
        },
        (mask ^ key_bit(key)) ^ key_bit(key) == mask,
{
    let k = key_bit(key);
    let b = kind_bit(kind);
    assert((mask ^ k) ^ k == mask) by (bit_vector);
    assert((k == 0 || k == 1 || k == 2 || k == 4 || k == 8) && (b == 1 || b == 2 || b == 4 || b
        == 8));
    assert((k == 0 || k == 1 || k == 2 || k == 4 || k == 8) && (b == 1 || b == 2 || b == 4 || b
        == 8) ==> (((mask ^ k) & b != 0) == if k == b {
        !(mask & b != 0)
    } else {
        mask & b != 0
    })) by (bit_vector);
}

} // verus!

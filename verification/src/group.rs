//! A group: the administrative container of banks, under one administrator.
use vstd::prelude::*;
use crate::address::{address_of, lemma_address_bytes, lemma_address_of_view, Address};
use crate::config::{overlay, GroupConfig};

verus! {

/// The length in bytes of a persisted group: the tag, two addresses and two flags.
pub const GROUP_RECORD_LEN: usize = 74;

/// The tag that opens a persisted group: seven bytes that name the kind of record, `mfgroup`,
/// and the version of the layout.
pub open spec fn group_record_tag() -> Seq<u8> {
    seq![109u8, 102, 103, 114, 111, 117, 112, 1]
}

/// The byte that stands for a flag.
pub open spec fn flag_byte(flag: bool) -> u8 {
    if flag {
        1
    } else {
        0
    }
}

/// A group record.
#[derive(Clone, Copy, Debug)]
pub struct MarginfiGroup {
    pub key: Address,
    /// The one principal that may configure the group and its banks.
    pub admin: Address,
    pub emergency_paused: bool,
    pub isolated_tier_enabled: bool,
}

impl MarginfiGroup {
    /// A group as it is created: under its administrator, with no flag set.
    pub open spec fn created(key: Address, admin: Address) -> MarginfiGroup {
        MarginfiGroup { key, admin, emergency_paused: false, isolated_tier_enabled: false }
    }

    /// The group after a configuration is installed: the flags are those of the
    /// configuration, and so is the administrator where it names one.
    pub open spec fn configured(self, config: GroupConfig) -> MarginfiGroup {
        MarginfiGroup {
            key: self.key,
            admin: overlay(self.admin, config.admin),
            emergency_paused: config.emergency_paused,
            isolated_tier_enabled: config.isolated_tier_enabled,
        }
    }

    /// Creates a group under an administrator.
    pub fn create(key: Address, admin: Address) -> (g: MarginfiGroup)
        ensures
            g == MarginfiGroup::created(key, admin),
    {
        MarginfiGroup { key, admin, emergency_paused: false, isolated_tier_enabled: false }
    }

    /// Installs a configuration as a whole.
    pub fn configure(&self, config: &GroupConfig) -> (g: MarginfiGroup)
        ensures
            g == self.configured(*config),
    {
        let admin: Address = match config.admin {
            Some(admin) => admin,
            None => self.admin,
        };
        MarginfiGroup {
            key: self.key,
            admin,
            emergency_paused: config.emergency_paused,
            isolated_tier_enabled: config.isolated_tier_enabled,
        }
    }

    /// The persisted form of the group: the tag, the key, the administrator, the two flags.
    pub open spec fn record(self) -> Seq<u8> {
        group_record_tag() + self.key@ + self.admin@ + seq![
            flag_byte(self.emergency_paused),
            flag_byte(self.isolated_tier_enabled),
        ]
    }

    /// The group that bytes persist, if they have the length, the tag and the flags of a
    /// persisted group.
    pub open spec fn parsed(bytes: Seq<u8>) -> Option<MarginfiGroup> {
        if bytes.len() == GROUP_RECORD_LEN && bytes.subrange(0, 8) == group_record_tag() && bytes[72] <= 1 && bytes[73]
            <= 1 {
            Some(
                MarginfiGroup {
                    key: address_of(bytes.subrange(8, 40)),
                    admin: address_of(bytes.subrange(40, 72)),
                    emergency_paused: bytes[72] == 1,
                    isolated_tier_enabled: bytes[73] == 1,
                },
            )
        } else {
            None
        }
    }

    /// Writes the group in its persisted form.
    pub fn to_bytes(&self) -> (bytes: Vec<u8>)
        ensures
            bytes@ == self.record(),
            bytes@.len() == GROUP_RECORD_LEN,
    {
        let mut bytes: Vec<u8> = vec![109u8, 102, 103, 114, 111, 117, 112, 1];
        let mut key: Vec<u8> = self.key.to_vec();
        let mut admin: Vec<u8> = self.admin.to_vec();
        bytes.append(&mut key);
        bytes.append(&mut admin);
        bytes.push(if self.emergency_paused { 1 } else { 0 });
        bytes.push(if self.isolated_tier_enabled { 1 } else { 0 });
        assert(bytes@ =~= self.record());
        bytes
    }

    /// Reads a group from its persisted form.
    pub fn from_bytes(bytes: &Vec<u8>) -> (r: Option<MarginfiGroup>)
        ensures
            r == MarginfiGroup::parsed(bytes@),
    {
        if bytes.len() != GROUP_RECORD_LEN {
            return None;
        }
        if bytes[0] != 109 || bytes[1] != 102 || bytes[2] != 103 || bytes[3] != 114 || bytes[4] != 111 || bytes[5] != 117
            || bytes[6] != 112 || bytes[7] != 1 {
            assert(bytes@.subrange(0, 8)[0] == bytes@[0]);
            assert(bytes@.subrange(0, 8)[1] == bytes@[1]);
            assert(bytes@.subrange(0, 8)[2] == bytes@[2]);
            assert(bytes@.subrange(0, 8)[3] == bytes@[3]);
            assert(bytes@.subrange(0, 8)[4] == bytes@[4]);
            assert(bytes@.subrange(0, 8)[5] == bytes@[5]);
            assert(bytes@.subrange(0, 8)[6] == bytes@[6]);
            assert(bytes@.subrange(0, 8)[7] == bytes@[7]);
            return None;
        }
        assert(bytes@.subrange(0, 8) =~= group_record_tag());
        if bytes[72] > 1 || bytes[73] > 1 {
            return None;
        }
        match (Address::from_slice(bytes, 8), Address::from_slice(bytes, 40)) {
            (Some(key), Some(admin)) => Some(
                MarginfiGroup { key, admin, emergency_paused: bytes[72] == 1, isolated_tier_enabled: bytes[73] == 1 },
            ),
            _ => None,
        }
    }
}

/// Reading what was written gives the group back, and the bytes of a group that was read are
/// the bytes it is written as.
pub proof fn law_group_record_round_trip(group: MarginfiGroup, bytes: Seq<u8>)
    ensures
        MarginfiGroup::parsed(group.record()) == Some(group),
        MarginfiGroup::parsed(bytes) matches Some(read) ==> read.record() == bytes,
{
    let written = group.record();
    assert(written.len() == GROUP_RECORD_LEN);
    assert(written.subrange(0, 8) =~= group_record_tag());
    assert(written.subrange(8, 40) =~= group.key@);
    assert(written.subrange(40, 72) =~= group.admin@);
    lemma_address_of_view(group.key);
    lemma_address_of_view(group.admin);
    if let Some(read) = MarginfiGroup::parsed(bytes) {
        lemma_address_bytes(bytes.subrange(8, 40));
        lemma_address_bytes(bytes.subrange(40, 72));
        assert(read.record() =~= bytes) by {
            assert forall|i: int| 0 <= i < 74 implies read.record()[i] == bytes[i] by {
                if i < 8 {
                    assert(bytes.subrange(0, 8)[i] == bytes[i]);
                } else if i < 40 {
                    assert(bytes.subrange(8, 40)[i - 8] == bytes[i]);
                } else if i < 72 {
                    assert(bytes.subrange(40, 72)[i - 40] == bytes[i]);
                }
            }
        }
    }
}

} // verus!

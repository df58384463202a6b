//! Saving a registry as plain rows, and restoring it from them.

use vstd::prelude::*;
use crate::account::AccountId;
use crate::category::{AddressInfo, Category, MAX_RISK};
use crate::error::{ProxyError, Record};
use crate::proxy::{records, Proxy};
use crate::roles::Roles;
use crate::state::{
    address_defect,
    first_address_defect,
    first_reporter_defect,
    reporter_defect,
    sound_address_rows,
    sound_reporter_rows,
};
use crate::table::{is_listing, Table};

verus! {

/// The rows of a saved reporter table: the name and the permission level of
/// each entry.
pub open spec fn reporter_rows(saved: Seq<(AccountId, u8)>) -> Seq<(Seq<char>, u8)> {
    Seq::new(saved.len(), |i: int| (saved[i].0@, saved[i].1))
}

/// The rows of a saved address table: the name, the category and the risk
/// score of each entry.
pub open spec fn address_rows(saved: Seq<(AccountId, Category, u8)>) -> Seq<(Seq<char>, (Category, u8))> {
    Seq::new(saved.len(), |i: int| (saved[i].0@, (saved[i].1, saved[i].2)))
}

impl Proxy {
    /// The reporter table as rows to save: each account that has a role, once,
    /// with its permission level.
    pub fn saved_reporters(&self) -> (saved: Vec<(AccountId, u8)>)
        ensures
            is_listing(reporter_rows(saved@), self@.levels()),
            sound_reporter_rows(reporter_rows(saved@)),
    {
        let table = self.reporters();
        let count = table.len();
        let mut saved: Vec<(AccountId, u8)> = Vec::new();
        let mut i: usize = 0;
        while i < count
            invariant
                i <= count,
                count == table.rows().len(),
                saved@.len() == i,
                forall|j: int|
                    0 <= j < i ==> (#[trigger] saved@[j]).0@ == table.rows()[j].0 && saved@[j].1
                        == table.rows()[j].1.spec_level(),
            decreases count - i,
        {
            if let Some((account, role)) = table.row(i) {
                saved.push((account.clone(), role.level()));
            }
            i += 1;
        }
        proof {
            let rows = reporter_rows(saved@);
            let levels = self@.levels();
            assert forall|j: int| 0 <= j < rows.len() implies rows[j].0 == table.rows()[j].0 && rows[j].1
                == table.rows()[j].1.spec_level() by {
                assert(saved@[j].0@ == table.rows()[j].0);
            }
            assert forall|j: int| 0 <= j < rows.len() implies levels.contains_key(#[trigger] rows[j].0)
                && levels[rows[j].0] == rows[j].1 by {
                assert(table@.contains_key(table.rows()[j].0));
            }
            assert forall|key: Seq<char>| #[trigger] levels.contains_key(key) implies exists|j: int|
                0 <= j < rows.len() && rows[j].0 == key by {
                assert(table@.contains_key(key));
                let j = choose|j: int| 0 <= j < table.rows().len() && table.rows()[j].0 == key;
                assert(rows[j].0 == key);
            }
            assert forall|j: int| 0 <= j < rows.len() implies reporter_defect(rows, j) is None by {
                assert(Roles::spec_from_level(table.rows()[j].1.spec_level()) == Some(table.rows()[j].1));
            }
        }
        saved
    }

    /// The address table as rows to save: each flagged account, once, with
    /// its category and risk score.
    pub fn saved_addresses(&self) -> (saved: Vec<(AccountId, Category, u8)>)
        ensures
            is_listing(address_rows(saved@), self@.addresses),
            sound_address_rows(address_rows(saved@)),
    {
        let table = self.addresses();
        let count = table.len();
        let mut saved: Vec<(AccountId, Category, u8)> = Vec::new();
        let mut i: usize = 0;
        while i < count
            invariant
                i <= count,
                count == table.rows().len(),
                saved@.len() == i,
                forall|j: int|
                    0 <= j < i ==> (#[trigger] saved@[j]).0@ == table.rows()[j].0 && (saved@[j].1, saved@[j].2)
                        == table.rows()[j].1@ && saved@[j].2 <= MAX_RISK,
            decreases count - i,
        {
            if let Some((account, address_info)) = table.row(i) {
                saved.push((account.clone(), address_info.category(), address_info.risk()));
            }
            i += 1;
        }
        proof {
            let rows = address_rows(saved@);
            let flagged = self@.addresses;
            assert forall|j: int| 0 <= j < rows.len() implies rows[j].0 == table.rows()[j].0 && rows[j].1
                == table.rows()[j].1@ && rows[j].1.1 <= MAX_RISK by {
                assert(saved@[j].0@ == table.rows()[j].0);
            }
            assert forall|j: int| 0 <= j < rows.len() implies flagged.contains_key(#[trigger] rows[j].0)
                && flagged[rows[j].0] == rows[j].1 by {
                assert(table@.contains_key(table.rows()[j].0));
            }
            assert forall|key: Seq<char>| #[trigger] flagged.contains_key(key) implies exists|j: int|
                0 <= j < rows.len() && rows[j].0 == key by {
                assert(table@.contains_key(key));
                let j = choose|j: int| 0 <= j < table.rows().len() && table.rows()[j].0 == key;
                assert(rows[j].0 == key);
            }
        }
        saved
    }

    /// Puts a registry together from its owner and its saved tables, unless a
    /// row has a defect: then the first defect found is the refusal, with the
    /// reporter rows read before the address rows.
    pub fn restore(owner_id: AccountId, reporters: &[(AccountId, u8)], addresses: &[(AccountId, Category, u8)]) -> (restored:
        Result<Proxy, ProxyError>)
        ensures
            restored is Ok <==> sound_reporter_rows(reporter_rows(reporters@)) && sound_address_rows(
                address_rows(addresses@),
            ),
            restored matches Ok(proxy) ==> {
                &&& proxy@.owner == owner_id@
                &&& is_listing(reporter_rows(reporters@), proxy@.levels())
                &&& is_listing(address_rows(addresses@), proxy@.addresses)
                &&& proxy@.inv()
            },
            restored matches Err(refusal) ==> {
                ||| first_reporter_defect(reporter_rows(reporters@), refusal)
                ||| sound_reporter_rows(reporter_rows(reporters@)) && first_address_defect(
                    address_rows(addresses@),
                    refusal,
                )
            },
    {
        let reporter_table = match restore_reporters(reporters) {
            Ok(table) => table,
            Err(refusal) => {
                return Err(refusal);
            },
        };
        let address_table = match restore_addresses(addresses) {
            Ok(table) => table,
            Err(refusal) => {
                return Err(refusal);
            },
        };
        Ok(Proxy::from_tables(owner_id, reporter_table, address_table))
    }
}

/// The permission level of each account of a reporter table.
spec fn levels_of(table: Table<Roles>) -> Map<Seq<char>, u8> {
    table@.map_values(|role: Roles| role.spec_level())
}

/// Reads a saved reporter table, row by row, up to the first defect.
fn restore_reporters(reporters: &[(AccountId, u8)]) -> (restored: Result<Table<Roles>, ProxyError>)
    ensures
        restored is Ok <==> sound_reporter_rows(reporter_rows(reporters@)),
        restored matches Ok(table) ==> is_listing(reporter_rows(reporters@), levels_of(table)),
        restored matches Err(refusal) ==> first_reporter_defect(reporter_rows(reporters@), refusal),
{
    let ghost rows = reporter_rows(reporters@);
    let mut table: Table<Roles> = Table::new();
    let mut i: usize = 0;
    while i < reporters.len()
        invariant
            i <= reporters@.len(),
            rows == reporter_rows(reporters@),
            forall|j: int| 0 <= j < i ==> reporter_defect(rows, j) is None,
            forall|j: int|
                0 <= j < i ==> levels_of(table).contains_key(#[trigger] rows[j].0) && levels_of(table)[rows[j].0]
                    == rows[j].1,
            forall|key: Seq<char>| #[trigger]
                levels_of(table).contains_key(key) ==> exists|j: int| 0 <= j < i && rows[j].0 == key,
        decreases reporters@.len() - i,
    {
        let ghost before = levels_of(table);
        assert(rows[i as int] == (reporters@[i as int].0@, reporters@[i as int].1));
        let role = match Roles::from_level(reporters[i].1) {
            Some(role) => role,
            None => {
                assert(reporter_defect(rows, i as int) == Some(ProxyError::InvalidRole));
                return Err(ProxyError::InvalidRole);
            },
        };
        if table.contains_key(&reporters[i].0) {
            proof {
                assert(before.contains_key(rows[i as int].0));
                assert(reporter_defect(rows, i as int) == Some(ProxyError::AlreadyExists(Record::Reporter)));
            }
            return Err(ProxyError::AlreadyExists(Record::Reporter));
        }
        proof {
            if exists|j: int| 0 <= j < i && rows[j].0 == rows[i as int].0 {
                let j = choose|j: int| 0 <= j < i && rows[j].0 == rows[i as int].0;
                assert(before.contains_key(rows[j].0));
            }
            assert(reporter_defect(rows, i as int) is None);
        }
        table.insert(reporters[i].0.clone(), role);
        proof {
            assert(levels_of(table) =~= before.insert(rows[i as int].0, rows[i as int].1));
            assert forall|j: int| 0 <= j < i + 1 implies levels_of(table).contains_key(#[trigger] rows[j].0)
                && levels_of(table)[rows[j].0] == rows[j].1 by {
                if j < i {
                    assert(before.contains_key(rows[j].0));
                }
            }
            assert forall|key: Seq<char>| #[trigger] levels_of(table).contains_key(key) implies exists|j: int|
                0 <= j < i + 1 && rows[j].0 == key by {
                if key != rows[i as int].0 {
                    assert(before.contains_key(key));
                    let j = choose|j: int| 0 <= j < i && rows[j].0 == key;
                    assert(0 <= j < i + 1 && rows[j].0 == key);
                } else {
                    assert(0 <= i < i + 1 && rows[i as int].0 == key);
                }
            }
        }
        i += 1;
    }
    proof {
        assert forall|a: int, b: int| 0 <= a < b < rows.len() implies rows[a].0 != rows[b].0 by {
            assert(reporter_defect(rows, b) is None);
        }
    }
    Ok(table)
}

/// Reads a saved address table, row by row, up to the first defect.
fn restore_addresses(addresses: &[(AccountId, Category, u8)]) -> (restored: Result<Table<AddressInfo>, ProxyError>)
    ensures
        restored is Ok <==> sound_address_rows(address_rows(addresses@)),
        restored matches Ok(table) ==> is_listing(address_rows(addresses@), records(table)) && forall|
            account: Seq<char>,
        | #[trigger]
            records(table).contains_key(account) ==> records(table)[account].1 <= MAX_RISK,
        restored matches Err(refusal) ==> first_address_defect(address_rows(addresses@), refusal),
{
    let ghost rows = address_rows(addresses@);
    let mut table: Table<AddressInfo> = Table::new();
    assert(records(table) =~= Map::<Seq<char>, (Category, u8)>::empty());
    let mut i: usize = 0;
    while i < addresses.len()
        invariant
            i <= addresses@.len(),
            rows == address_rows(addresses@),
            forall|j: int| 0 <= j < i ==> address_defect(rows, j) is None,
            forall|j: int|
                0 <= j < i ==> records(table).contains_key(#[trigger] rows[j].0) && records(table)[rows[j].0]
                    == rows[j].1,
            forall|key: Seq<char>| #[trigger]
                records(table).contains_key(key) ==> exists|j: int| 0 <= j < i && rows[j].0 == key,
        decreases addresses@.len() - i,
    {
        let ghost before = records(table);
        assert(rows[i as int] == (addresses@[i as int].0@, (addresses@[i as int].1, addresses@[i as int].2)));
        let address_info = match AddressInfo::new(addresses[i].1, addresses[i].2) {
            Ok(address_info) => address_info,
            Err(refusal) => {
                assert(address_defect(rows, i as int) == Some(ProxyError::InvalidRisk));
                return Err(refusal);
            },
        };
        if table.contains_key(&addresses[i].0) {
            proof {
                assert(before.contains_key(rows[i as int].0));
                assert(address_defect(rows, i as int) == Some(ProxyError::AlreadyExists(Record::Address)));
            }
            return Err(ProxyError::AlreadyExists(Record::Address));
        }
        proof {
            if exists|j: int| 0 <= j < i && rows[j].0 == rows[i as int].0 {
                let j = choose|j: int| 0 <= j < i && rows[j].0 == rows[i as int].0;
                assert(before.contains_key(rows[j].0));
            }
            assert(address_defect(rows, i as int) is None);
        }
        table.insert(addresses[i].0.clone(), address_info);
        proof {
            assert(records(table) =~= before.insert(rows[i as int].0, rows[i as int].1));
            assert forall|j: int| 0 <= j < i + 1 implies records(table).contains_key(#[trigger] rows[j].0)
                && records(table)[rows[j].0] == rows[j].1 by {
                if j < i {
                    assert(before.contains_key(rows[j].0));
                }
            }
            assert forall|key: Seq<char>| #[trigger] records(table).contains_key(key) implies exists|j: int|
                0 <= j < i + 1 && rows[j].0 == key by {
                if key != rows[i as int].0 {
                    assert(before.contains_key(key));
                    let j = choose|j: int| 0 <= j < i && rows[j].0 == key;
                    assert(0 <= j < i + 1 && rows[j].0 == key);
                } else {
                    assert(0 <= i < i + 1 && rows[i as int].0 == key);
                }
            }
        }
        i += 1;
    }
    proof {
        assert forall|a: int, b: int| 0 <= a < b < rows.len() implies rows[a].0 != rows[b].0 by {
            assert(address_defect(rows, b) is None);
        }
        assert forall|account: Seq<char>| #[trigger] records(table).contains_key(account) implies records(
            table,
        )[account].1 <= MAX_RISK by {
            let j = choose|j: int| 0 <= j < i && rows[j].0 == account;
            assert(address_defect(rows, j) is None);
            assert(records(table).contains_key(rows[j].0));
        }
    }
    Ok(table)
}

} // verus!

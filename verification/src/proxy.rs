//! The registry itself: its state, and the calls that read and change it.

use vstd::prelude::*;
use crate::account::{well_formed_account_id, AccountId};
use crate::category::{AddressInfo, Category, MAX_RISK};
use crate::error::{Privilege, ProxyError, Record};
use crate::roles::Roles;
use crate::state::ProxyState;
use crate::table::Table;

verus! {

/// A registry: its owner, its reporters and the accounts that they flagged.
#[derive(Debug)]
pub struct Proxy {
    owner_id: AccountId,
    reporters: Table<Roles>,
    addresses: Table<AddressInfo>,
}

impl View for Proxy {
    type V = ProxyState;

    closed spec fn view(&self) -> ProxyState {
        ProxyState {
            owner: self.owner_id@,
            reporters: self.reporters@,
            addresses: records(self.addresses),
        }
    }
}

/// What an address table records: the category and risk score of each account
/// in it.
pub open spec fn records(addresses: Table<AddressInfo>) -> Map<Seq<char>, (Category, u8)> {
    addresses@.map_values(|info: AddressInfo| info@)
}

impl Proxy {
    /// Every registry meets [`ProxyState::inv`].
    #[verifier::type_invariant]
    pub open spec fn inv(self) -> bool {
        self@.inv()
    }

    /// Sets up a registry that belongs to `owner_id` and holds nothing yet.
    pub fn new(owner_id: AccountId) -> (proxy: Proxy)
        ensures
            proxy@ == ProxyState::initial(owner_id@),
            proxy@.inv(),
    {
        proof {
            use_type_invariant(&owner_id);
        }
        let proxy = Proxy { owner_id, reporters: Table::new(), addresses: Table::new() };
        assert(proxy@ =~= ProxyState::initial(owner_id@));
        proxy
    }

    /// Sets up a registry in `slot`, unless there is one already: a registry
    /// is initialized once and never again.
    pub fn initialize(slot: &mut Option<Proxy>, owner_id: AccountId) -> (done: Result<(), ProxyError>)
        ensures
            *old(slot) is Some ==> done == Err::<(), ProxyError>(ProxyError::AlreadyInitialized)
                && *final(slot) == *old(slot),
            *old(slot) is None ==> done == Ok::<(), ProxyError>(()) && *final(slot) is Some
                && (*final(slot))->Some_0@ == ProxyState::initial(owner_id@),
    {
        if slot.is_some() {
            Err(ProxyError::AlreadyInitialized)
        } else {
            *slot = Some(Proxy::new(owner_id));
            Ok(())
        }
    }

    /// The owner of the registry.
    pub fn owner_id(&self) -> (owner: &AccountId)
        ensures
            owner@ == self@.owner,
            well_formed_account_id(owner@),
    {
        proof {
            use_type_invariant(self);
        }
        &self.owner_id
    }

    /// Puts a registry together from its parts.
    pub(crate) fn from_tables(owner_id: AccountId, reporters: Table<Roles>, addresses: Table<AddressInfo>) -> (proxy:
        Proxy)
        requires
            forall|account: Seq<char>| #[trigger]
                records(addresses).contains_key(account) ==> records(addresses)[account].1 <= MAX_RISK,
        ensures
            proxy@ == (ProxyState { owner: owner_id@, reporters: reporters@, addresses: records(addresses) }),
            proxy@.inv(),
    {
        proof {
            use_type_invariant(&owner_id);
        }
        Proxy { owner_id, reporters, addresses }
    }

    /// The reporter table, to read.
    pub fn reporters(&self) -> (table: &Table<Roles>)
        ensures
            table@ == self@.reporters,
    {
        &self.reporters
    }

    /// The address table, to read.
    pub fn addresses(&self) -> (table: &Table<AddressInfo>)
        ensures
            records(*table) == self@.addresses,
    {
        &self.addresses
    }

    /// Whether `address` holds a role, whichever.
    pub fn is_reporter(&self, address: &AccountId) -> (found: bool)
        ensures
            found == self@.is_reporter(address@),
    {
        self.reporters.contains_key(address)
    }

    /// Reads a permission level: the role that it stands for, or
    /// `InvalidRole` if it stands for none.
    pub fn validate_permission_level(&self, permission_level: &u8) -> (role: Result<Roles, ProxyError>)
        ensures
            role == match Roles::spec_from_level(*permission_level) {
                Some(r) => Ok::<Roles, ProxyError>(r),
                None => Err::<Roles, ProxyError>(ProxyError::InvalidRole),
            },
    {
        match Roles::from_level(*permission_level) {
            Some(role) => Ok(role),
            None => Err(ProxyError::InvalidRole),
        }
    }

    /// Lets `caller` pass if it is the owner or holds the role of an
    /// authority, and refuses it as `Unauthorized` otherwise.
    pub fn assert_owner_or_authority(&self, caller: &AccountId) -> (pass: Result<(), ProxyError>)
        ensures
            pass == if self@.is_owner_or_authority(caller@) {
                Ok::<(), ProxyError>(())
            } else {
                Err::<(), ProxyError>(ProxyError::Unauthorized(Privilege::OwnerOrAuthority))
            },
    {
        if self.owner_id.eq(caller) {
            return Ok(());
        }
        match self.reporters.get(caller) {
            Some(Roles::Authority) => Ok(()),
            _ => Err(ProxyError::Unauthorized(Privilege::OwnerOrAuthority)),
        }
    }

    /// Lets `caller` pass if it holds a role, whichever, and refuses it as
    /// `Unauthorized` otherwise.
    pub fn assert_reporter(&self, caller: &AccountId) -> (pass: Result<(), ProxyError>)
        ensures
            pass == if self@.is_reporter(caller@) {
                Ok::<(), ProxyError>(())
            } else {
                Err::<(), ProxyError>(ProxyError::Unauthorized(Privilege::Reporter))
            },
    {
        if self.reporters.contains_key(caller) {
            Ok(())
        } else {
            Err(ProxyError::Unauthorized(Privilege::Reporter))
        }
    }

    /// Hands the registry over to `owner_id`, if `caller` is the owner.
    pub fn change_owner(&mut self, caller: &AccountId, owner_id: AccountId) -> (done: Result<(), ProxyError>)
        ensures
            done == old(self)@.change_owner(caller@, owner_id@).0,
            final(self)@ == old(self)@.change_owner(caller@, owner_id@).1,
            final(self)@.inv(),
    {
        proof {
            use_type_invariant(&*self);
            use_type_invariant(&owner_id);
        }
        if !self.owner_id.eq(caller) {
            return Err(ProxyError::Unauthorized(Privilege::Owner));
        }
        self.owner_id = owner_id;
        assert(self@ =~= old(self)@.with_owner(owner_id@));
        Ok(())
    }

    /// The permission level of `address`, or `NotFound` if it holds no role.
    pub fn get_reporter(&self, address: &AccountId) -> (level: Result<u8, ProxyError>)
        ensures
            level == self@.get_reporter(address@),
    {
        match self.reporters.get(address) {
            Some(role) => Ok(role.level()),
            None => Err(ProxyError::NotFound(Record::Reporter)),
        }
    }

    /// The category and risk score of `address`. An account that is not
    /// flagged has no category and the score 0; nothing is refused.
    pub fn get_address(&self, address: &AccountId) -> (record: (Category, u8))
        ensures
            record == self@.get_address(address@),
            !self@.addresses.contains_key(address@) ==> record == (Category::Uncategorized, 0u8),
            record.1 <= MAX_RISK,
    {
        match self.addresses.get(address) {
            Some(info) => (info.category(), info.risk()),
            None => (Category::Uncategorized, 0),
        }
    }

    /// Gives `address` the role that `permission_level` stands for, if the
    /// level stands for a role, `caller` is the owner or an authority, and
    /// `address` holds no role yet. Returns the level that `address` had
    /// before, which is none.
    pub fn create_reporter(&mut self, caller: &AccountId, address: AccountId, permission_level: u8) -> (previous:
        Result<Option<u8>, ProxyError>)
        ensures
            previous == old(self)@.create_reporter(caller@, address@, permission_level).0,
            final(self)@ == old(self)@.create_reporter(caller@, address@, permission_level).1,
            final(self)@.inv(),
    {
        proof {
            use_type_invariant(&*self);
        }
        let role = match self.validate_permission_level(&permission_level) {
            Ok(role) => role,
            Err(refusal) => {
                return Err(refusal);
            },
        };
        if let Err(refusal) = self.assert_owner_or_authority(caller) {
            return Err(refusal);
        }
        if self.reporters.contains_key(&address) {
            return Err(ProxyError::AlreadyExists(Record::Reporter));
        }
        self.set_reporter(address, role);
        Ok(None)
    }

    /// Replaces the role of `address` by the one that `permission_level`
    /// stands for, if the level stands for a role, `caller` is the owner or an
    /// authority, and `address` holds a role.
    pub fn update_reporter(&mut self, caller: &AccountId, address: AccountId, permission_level: u8) -> (done:
        Result<bool, ProxyError>)
        ensures
            done == old(self)@.update_reporter(caller@, address@, permission_level).0,
            final(self)@ == old(self)@.update_reporter(caller@, address@, permission_level).1,
            final(self)@.inv(),
    {
        proof {
            use_type_invariant(&*self);
        }
        let role = match self.validate_permission_level(&permission_level) {
            Ok(role) => role,
            Err(refusal) => {
                return Err(refusal);
            },
        };
        if let Err(refusal) = self.assert_owner_or_authority(caller) {
            return Err(refusal);
        }
        if !self.reporters.contains_key(&address) {
            return Err(ProxyError::NotFound(Record::Reporter));
        }
        self.set_reporter(address, role);
        Ok(true)
    }

    /// Flags `address` as `category` at `risk`, if `caller` holds a role,
    /// `risk` is at most [`MAX_RISK`], and `address` is not flagged yet.
    pub fn create_address(&mut self, caller: &AccountId, address: AccountId, category: Category, risk: u8) -> (done:
        Result<bool, ProxyError>)
        ensures
            done == old(self)@.create_address(caller@, address@, category, risk).0,
            final(self)@ == old(self)@.create_address(caller@, address@, category, risk).1,
            final(self)@.inv(),
    {
        proof {
            use_type_invariant(&*self);
        }
        if let Err(refusal) = self.assert_reporter(caller) {
            return Err(refusal);
        }
        let address_info = match AddressInfo::new(category, risk) {
            Ok(address_info) => address_info,
            Err(refusal) => {
                return Err(refusal);
            },
        };
        if self.addresses.contains_key(&address) {
            return Err(ProxyError::AlreadyExists(Record::Address));
        }
        self.set_address(address, address_info);
        Ok(true)
    }

    /// Replaces the whole record of `address` by `category` and `risk`, if
    /// `caller` holds a role, `risk` is at most [`MAX_RISK`], and `address` is
    /// flagged.
    pub fn update_address(&mut self, caller: &AccountId, address: AccountId, category: Category, risk: u8) -> (done:
        Result<(), ProxyError>)
        ensures
            done == old(self)@.update_address(caller@, address@, category, risk).0,
            final(self)@ == old(self)@.update_address(caller@, address@, category, risk).1,
            final(self)@.inv(),
    {
        proof {
            use_type_invariant(&*self);
        }
        if let Err(refusal) = self.assert_reporter(caller) {
            return Err(refusal);
        }
        let address_info = match AddressInfo::new(category, risk) {
            Ok(address_info) => address_info,
            Err(refusal) => {
                return Err(refusal);
            },
        };
        if !self.addresses.contains_key(&address) {
            return Err(ProxyError::NotFound(Record::Address));
        }
        self.set_address(address, address_info);
        Ok(())
    }

    /// A registry that differs from a valid one in its reporter table only is
    /// valid.
    proof fn lemma_reporters_replaced(self, reporters: Table<Roles>)
        requires
            self.inv(),
        ensures
            (Proxy { owner_id: self.owner_id, reporters, addresses: self.addresses }).inv(),
    {
        let replaced = Proxy { owner_id: self.owner_id, reporters, addresses: self.addresses };
        assert(replaced@.addresses == self@.addresses);
    }

    /// A registry that differs from a valid one in its address table only is
    /// valid, if no risk score in the new table is above [`MAX_RISK`].
    proof fn lemma_addresses_replaced(self, addresses: Table<AddressInfo>)
        requires
            self.inv(),
            forall|account: Seq<char>| #[trigger]
                records(addresses).contains_key(account) ==> records(addresses)[account].1 <= MAX_RISK,
        ensures
            (Proxy { owner_id: self.owner_id, reporters: self.reporters, addresses }).inv(),
    {
        let replaced = Proxy { owner_id: self.owner_id, reporters: self.reporters, addresses };
        assert(replaced@.addresses == records(addresses));
    }

    /// Writes an entry of the reporter table.
    fn set_reporter(&mut self, address: AccountId, role: Roles)
        ensures
            final(self)@ == old(self)@.with_reporter(address@, role),
    {
        proof {
            use_type_invariant(&*self);
        }
        let mut reporters: Table<Roles> = Table::new();
        proof {
            self.lemma_reporters_replaced(reporters);
        }
        std::mem::swap(&mut reporters, &mut self.reporters);
        reporters.insert(address, role);
        proof {
            self.lemma_reporters_replaced(reporters);
        }
        self.reporters = reporters;
        assert(self@ =~= old(self)@.with_reporter(address@, role));
    }

    /// Writes an entry of the address table.
    fn set_address(&mut self, address: AccountId, address_info: AddressInfo)
        ensures
            final(self)@ == old(self)@.with_address(address@, address_info@.0, address_info@.1),
    {
        proof {
            use_type_invariant(&*self);
            use_type_invariant(&address_info);
        }
        let ghost before = records(self.addresses);
        let mut addresses: Table<AddressInfo> = Table::new();
        proof {
            assert(before == self@.addresses);
            assert forall|account: Seq<char>| #[trigger] before.contains_key(account) implies before[account].1
                <= MAX_RISK by {}
            assert(records(addresses) =~= Map::<Seq<char>, (Category, u8)>::empty());
            self.lemma_addresses_replaced(addresses);
        }
        std::mem::swap(&mut addresses, &mut self.addresses);
        addresses.insert(address, address_info);
        proof {
            assert(records(addresses) =~= before.insert(address@, address_info@));
            self.lemma_addresses_replaced(addresses);
        }
        self.addresses = addresses;
        assert(self@ =~= old(self)@.with_address(address@, address_info@.0, address_info@.1));
    }
}

} // verus!

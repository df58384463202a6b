//! The registry as a mathematical state machine: what each call answers and
//! what it leaves behind, over maps from account names.

use vstd::prelude::*;
use crate::account::well_formed_account_id;
use crate::category::{Category, MAX_RISK};
use crate::error::{Privilege, ProxyError, Record};
use crate::roles::Roles;

verus! {

/// The contents of a registry.
#[verifier::ext_equal]
pub struct ProxyState {
    /// The name of the owner.
    pub owner: Seq<char>,
    /// The reporter table: the role of each account that has one.
    pub reporters: Map<Seq<char>, Roles>,
    /// The address table: the category and risk score of each flagged account.
    pub addresses: Map<Seq<char>, (Category, u8)>,
}

impl ProxyState {
    /// A registry that `owner` has just set up: both tables are empty.
    pub open spec fn initial(owner: Seq<char>) -> ProxyState {
        ProxyState { owner, reporters: Map::empty(), addresses: Map::empty() }
    }

    /// What holds of every registry: the owner's name is a well-formed
    /// account name (so it is never empty), and no flagged account has a risk
    /// score above [`MAX_RISK`].
    pub open spec fn inv(self) -> bool {
        &&& well_formed_account_id(self.owner)
        &&& forall|account: Seq<char>| #[trigger]
            self.addresses.contains_key(account) ==> self.addresses[account].1 <= MAX_RISK
    }

    /// `account` has a role, whichever.
    pub open spec fn is_reporter(self, account: Seq<char>) -> bool {
        self.reporters.contains_key(account)
    }

    /// `account` has the role of an authority.
    pub open spec fn is_authority(self, account: Seq<char>) -> bool {
        self.reporters.contains_key(account) && self.reporters[account] == Roles::Authority
    }

    /// `account` may create and update reporters: it is the owner, or it has
    /// the role of an authority.
    pub open spec fn is_owner_or_authority(self, account: Seq<char>) -> bool {
        account == self.owner || self.is_authority(account)
    }

    /// The permission level of `target`, or why there is none.
    pub open spec fn get_reporter(self, target: Seq<char>) -> Result<u8, ProxyError> {
        if self.reporters.contains_key(target) {
            Ok(self.reporters[target].spec_level())
        } else {
            Err(ProxyError::NotFound(Record::Reporter))
        }
    }

    /// The category and risk score of `target`; of an account that is not
    /// flagged, no category and the score 0.
    pub open spec fn get_address(self, target: Seq<char>) -> (Category, u8) {
        if self.addresses.contains_key(target) {
            self.addresses[target]
        } else {
            (Category::Uncategorized, 0u8)
        }
    }

    /// The reporter table as it is read and saved: the permission level of
    /// each account that has a role.
    pub open spec fn levels(self) -> Map<Seq<char>, u8> {
        self.reporters.map_values(|role: Roles| role.spec_level())
    }

    /// This registry with `owner` as its owner.
    pub open spec fn with_owner(self, owner: Seq<char>) -> ProxyState {
        ProxyState { owner, ..self }
    }

    /// This registry with `target` holding `role`.
    pub open spec fn with_reporter(self, target: Seq<char>, role: Roles) -> ProxyState {
        ProxyState { reporters: self.reporters.insert(target, role), ..self }
    }

    /// This registry with `target` flagged as `category` at `risk`.
    pub open spec fn with_address(self, target: Seq<char>, category: Category, risk: u8) -> ProxyState {
        ProxyState { addresses: self.addresses.insert(target, (category, risk)), ..self }
    }

    /// `caller` hands the registry over to `new_owner`. Only the owner may.
    pub open spec fn change_owner(self, caller: Seq<char>, new_owner: Seq<char>) -> (
        Result<(), ProxyError>,
        ProxyState,
    ) {
        if caller != self.owner {
            (Err(ProxyError::Unauthorized(Privilege::Owner)), self)
        } else {
            (Ok(()), self.with_owner(new_owner))
        }
    }

    /// `caller` gives `target`, which has no role yet, the role that `level`
    /// stands for. The level is looked at first, then the caller, then the
    /// target.
    pub open spec fn create_reporter(self, caller: Seq<char>, target: Seq<char>, level: u8) -> (
        Result<Option<u8>, ProxyError>,
        ProxyState,
    ) {
        match Roles::spec_from_level(level) {
            None => (Err(ProxyError::InvalidRole), self),
            Some(role) => if !self.is_owner_or_authority(caller) {
                (Err(ProxyError::Unauthorized(Privilege::OwnerOrAuthority)), self)
            } else if self.reporters.contains_key(target) {
                (Err(ProxyError::AlreadyExists(Record::Reporter)), self)
            } else {
                (Ok(None), self.with_reporter(target, role))
            },
        }
    }

    /// `caller` replaces the role of `target`, which has one, by the role
    /// that `level` stands for. The level is looked at first, then the
    /// caller, then the target.
    pub open spec fn update_reporter(self, caller: Seq<char>, target: Seq<char>, level: u8) -> (
        Result<bool, ProxyError>,
        ProxyState,
    ) {
        match Roles::spec_from_level(level) {
            None => (Err(ProxyError::InvalidRole), self),
            Some(role) => if !self.is_owner_or_authority(caller) {
                (Err(ProxyError::Unauthorized(Privilege::OwnerOrAuthority)), self)
            } else if !self.reporters.contains_key(target) {
                (Err(ProxyError::NotFound(Record::Reporter)), self)
            } else {
                (Ok(true), self.with_reporter(target, role))
            },
        }
    }

    /// `caller` flags `target`, which is not flagged yet. The caller is
    /// looked at first, then the risk score, then the target.
    pub open spec fn create_address(
        self,
        caller: Seq<char>,
        target: Seq<char>,
        category: Category,
        risk: u8,
    ) -> (Result<bool, ProxyError>, ProxyState) {
        if !self.is_reporter(caller) {
            (Err(ProxyError::Unauthorized(Privilege::Reporter)), self)
        } else if risk > MAX_RISK {
            (Err(ProxyError::InvalidRisk), self)
        } else if self.addresses.contains_key(target) {
            (Err(ProxyError::AlreadyExists(Record::Address)), self)
        } else {
            (Ok(true), self.with_address(target, category, risk))
        }
    }

    /// `caller` replaces the whole record of `target`, which is flagged. The
    /// caller is looked at first, then the risk score, then the target.
    pub open spec fn update_address(
        self,
        caller: Seq<char>,
        target: Seq<char>,
        category: Category,
        risk: u8,
    ) -> (Result<(), ProxyError>, ProxyState) {
        if !self.is_reporter(caller) {
            (Err(ProxyError::Unauthorized(Privilege::Reporter)), self)
        } else if risk > MAX_RISK {
            (Err(ProxyError::InvalidRisk), self)
        } else if !self.addresses.contains_key(target) {
            (Err(ProxyError::NotFound(Record::Address)), self)
        } else {
            (Ok(()), self.with_address(target, category, risk))
        }
    }
}

/// What is wrong with row `i` of a saved reporter table, if anything is: its
/// level stands for no role, or else its account has an earlier row.
pub open spec fn reporter_defect(rows: Seq<(Seq<char>, u8)>, i: int) -> Option<ProxyError> {
    if Roles::spec_from_level(rows[i].1) is None {
        Some(ProxyError::InvalidRole)
    } else if exists|j: int| 0 <= j < i && rows[j].0 == rows[i].0 {
        Some(ProxyError::AlreadyExists(Record::Reporter))
    } else {
        None
    }
}

/// What is wrong with row `i` of a saved address table, if anything is: its
/// risk score is above [`MAX_RISK`], or else its account has an earlier row.
pub open spec fn address_defect(rows: Seq<(Seq<char>, (Category, u8))>, i: int) -> Option<ProxyError> {
    if rows[i].1.1 > MAX_RISK {
        Some(ProxyError::InvalidRisk)
    } else if exists|j: int| 0 <= j < i && rows[j].0 == rows[i].0 {
        Some(ProxyError::AlreadyExists(Record::Address))
    } else {
        None
    }
}

/// No row of a saved reporter table has a defect.
pub open spec fn sound_reporter_rows(rows: Seq<(Seq<char>, u8)>) -> bool {
    forall|i: int| 0 <= i < rows.len() ==> reporter_defect(rows, i) is None
}

/// No row of a saved address table has a defect.
pub open spec fn sound_address_rows(rows: Seq<(Seq<char>, (Category, u8))>) -> bool {
    forall|i: int| 0 <= i < rows.len() ==> address_defect(rows, i) is None
}

/// `refusal` is the defect of the first row of a saved reporter table that has
/// one.
pub open spec fn first_reporter_defect(rows: Seq<(Seq<char>, u8)>, refusal: ProxyError) -> bool {
    exists|i: int|
        0 <= i < rows.len() && reporter_defect(rows, i) == Some(refusal) && forall|j: int|
            0 <= j < i ==> reporter_defect(rows, j) is None
}

/// `refusal` is the defect of the first row of a saved address table that has
/// one.
pub open spec fn first_address_defect(rows: Seq<(Seq<char>, (Category, u8))>, refusal: ProxyError) -> bool {
    exists|i: int|
        0 <= i < rows.len() && address_defect(rows, i) == Some(refusal) && forall|j: int|
            0 <= j < i ==> address_defect(rows, j) is None
}

} // verus!

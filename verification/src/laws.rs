//! What holds of the registry whatever its contents and whoever calls,
//! proved of the state machine that the registry's calls follow.

use vstd::prelude::*;
use crate::account::well_formed_account_id;
use crate::category::{Category, MAX_RISK};
use crate::error::{Privilege, ProxyError, Record};
use crate::roles::Roles;
use crate::state::ProxyState;
use crate::table::{is_listing, lemma_listing_determines_table};

verus! {

/// A fresh registry is valid, and every call leaves a valid registry valid,
/// whether it is accepted or refused.
pub proof fn law_calls_keep_the_registry_valid(
    state: ProxyState,
    caller: Seq<char>,
    target: Seq<char>,
    level: u8,
    category: Category,
    risk: u8,
)
    requires
        state.inv(),
        well_formed_account_id(target),
    ensures
        ProxyState::initial(target).inv(),
        state.change_owner(caller, target).1.inv(),
        state.create_reporter(caller, target, level).1.inv(),
        state.update_reporter(caller, target, level).1.inv(),
        state.create_address(caller, target, category, risk).1.inv(),
        state.update_address(caller, target, category, risk).1.inv(),
{
}

/// A refused call changes nothing.
pub proof fn law_refused_calls_change_nothing(
    state: ProxyState,
    caller: Seq<char>,
    target: Seq<char>,
    level: u8,
    category: Category,
    risk: u8,
)
    ensures
        state.change_owner(caller, target).0 is Err ==> state.change_owner(caller, target).1 == state,
        state.create_reporter(caller, target, level).0 is Err ==> state.create_reporter(caller, target, level).1
            == state,
        state.update_reporter(caller, target, level).0 is Err ==> state.update_reporter(caller, target, level).1
            == state,
        state.create_address(caller, target, category, risk).0 is Err ==> state.create_address(
            caller,
            target,
            category,
            risk,
        ).1 == state,
        state.update_address(caller, target, category, risk).0 is Err ==> state.update_address(
            caller,
            target,
            category,
            risk,
        ).1 == state,
{
}

/// The owner, and nobody else, can hand the registry over; afterwards the
/// new owner is the owner and both tables are as they were.
pub proof fn law_only_the_owner_changes_the_owner(state: ProxyState, caller: Seq<char>, new_owner: Seq<char>)
    ensures
        state.change_owner(caller, new_owner).0 is Ok <==> caller == state.owner,
        caller != state.owner ==> state.change_owner(caller, new_owner).0 == Err::<(), ProxyError>(
            ProxyError::Unauthorized(Privilege::Owner),
        ),
        caller == state.owner ==> state.change_owner(caller, new_owner).1.owner == new_owner,
        state.change_owner(caller, new_owner).1.reporters == state.reporters,
        state.change_owner(caller, new_owner).1.addresses == state.addresses,
{
}

/// Creating and updating a reporter succeed only with the permission level of
/// a reporter or of an authority; with any other level they are refused as
/// `InvalidRole`, whoever calls and whatever the registry holds.
pub proof fn law_role_validity(state: ProxyState, caller: Seq<char>, target: Seq<char>, level: u8)
    ensures
        state.create_reporter(caller, target, level).0 is Ok ==> level == Roles::Reporter.spec_level() || level
            == Roles::Authority.spec_level(),
        state.update_reporter(caller, target, level).0 is Ok ==> level == Roles::Reporter.spec_level() || level
            == Roles::Authority.spec_level(),
        level != Roles::Reporter.spec_level() && level != Roles::Authority.spec_level() ==> {
            &&& state.create_reporter(caller, target, level).0 == Err::<Option<u8>, ProxyError>(
                ProxyError::InvalidRole,
            )
            &&& state.update_reporter(caller, target, level).0 == Err::<bool, ProxyError>(ProxyError::InvalidRole)
        },
{
}

/// Once a reporter has been created, creating it again is refused, whoever
/// asks and with whatever level; it is refused as `AlreadyExists` when the
/// level stands for a role and the second caller may manage reporters.
pub proof fn law_no_duplicate_reporter(
    state: ProxyState,
    first_caller: Seq<char>,
    second_caller: Seq<char>,
    target: Seq<char>,
    first_level: u8,
    second_level: u8,
)
    requires
        state.create_reporter(first_caller, target, first_level).0 is Ok,
    ensures
        ({
            let after = state.create_reporter(first_caller, target, first_level).1;
            &&& after.create_reporter(second_caller, target, second_level).0 is Err
            &&& after.create_reporter(second_caller, target, second_level).1 == after
            &&& Roles::spec_from_level(second_level) is Some && after.is_owner_or_authority(second_caller)
                ==> after.create_reporter(second_caller, target, second_level).0 == Err::<
                Option<u8>,
                ProxyError,
            >(ProxyError::AlreadyExists(Record::Reporter))
        }),
{
}

/// Once an address has been created, creating it again is refused, whoever
/// asks and with whatever record; it is refused as `AlreadyExists` when the
/// second caller is a reporter and the risk score is in range.
pub proof fn law_no_duplicate_address(
    state: ProxyState,
    first_caller: Seq<char>,
    second_caller: Seq<char>,
    target: Seq<char>,
    first_category: Category,
    first_risk: u8,
    second_category: Category,
    second_risk: u8,
)
    requires
        state.create_address(first_caller, target, first_category, first_risk).0 is Ok,
    ensures
        ({
            let after = state.create_address(first_caller, target, first_category, first_risk).1;
            &&& after.create_address(second_caller, target, second_category, second_risk).0 is Err
            &&& after.create_address(second_caller, target, second_category, second_risk).1 == after
            &&& after.is_reporter(second_caller) && second_risk <= MAX_RISK ==> after.create_address(
                second_caller,
                target,
                second_category,
                second_risk,
            ).0 == Err::<bool, ProxyError>(ProxyError::AlreadyExists(Record::Address))
        }),
{
}

/// Updating a reporter that the registry does not hold is refused; it is
/// refused as `NotFound` when the level stands for a role and the caller may
/// manage reporters.
pub proof fn law_update_reporter_requires_existence(
    state: ProxyState,
    caller: Seq<char>,
    target: Seq<char>,
    level: u8,
)
    requires
        !state.reporters.contains_key(target),
    ensures
        state.update_reporter(caller, target, level).0 is Err,
        state.update_reporter(caller, target, level).1 == state,
        Roles::spec_from_level(level) is Some && state.is_owner_or_authority(caller) ==> state.update_reporter(
            caller,
            target,
            level,
        ).0 == Err::<bool, ProxyError>(ProxyError::NotFound(Record::Reporter)),
{
}

/// Updating an address that the registry does not hold is refused; it is
/// refused as `NotFound` when the caller is a reporter and the risk score is
/// in range.
pub proof fn law_update_address_requires_existence(
    state: ProxyState,
    caller: Seq<char>,
    target: Seq<char>,
    category: Category,
    risk: u8,
)
    requires
        !state.addresses.contains_key(target),
    ensures
        state.update_address(caller, target, category, risk).0 is Err,
        state.update_address(caller, target, category, risk).1 == state,
        state.is_reporter(caller) && risk <= MAX_RISK ==> state.update_address(caller, target, category, risk).0
            == Err::<(), ProxyError>(ProxyError::NotFound(Record::Address)),
{
}

/// Reading the role of an account that holds none is refused as `NotFound`.
pub proof fn law_get_reporter_requires_existence(state: ProxyState, target: Seq<char>)
    ensures
        state.get_reporter(target) is Ok <==> state.reporters.contains_key(target),
        !state.reporters.contains_key(target) ==> state.get_reporter(target) == Err::<u8, ProxyError>(
            ProxyError::NotFound(Record::Reporter),
        ),
{
}

/// An account with the role of a reporter can create and update addresses:
/// it creates any address that is not there and updates any that is, with
/// any category and any risk score in range.
pub proof fn law_reporter_manages_addresses(
    state: ProxyState,
    caller: Seq<char>,
    target: Seq<char>,
    category: Category,
    risk: u8,
)
    requires
        state.reporters.contains_key(caller),
        state.reporters[caller] == Roles::Reporter,
        risk <= MAX_RISK,
    ensures
        !state.addresses.contains_key(target) ==> state.create_address(caller, target, category, risk).0 is Ok,
        state.addresses.contains_key(target) ==> state.update_address(caller, target, category, risk).0 is Ok,
{
}

/// An account with the role of a reporter that is not the owner cannot
/// create or update reporters: with a level that stands for a role it is
/// refused as `Unauthorized`, and with no level is it accepted.
pub proof fn law_reporter_cannot_manage_reporters(
    state: ProxyState,
    caller: Seq<char>,
    target: Seq<char>,
    level: u8,
)
    requires
        state.reporters.contains_key(caller),
        state.reporters[caller] == Roles::Reporter,
        caller != state.owner,
    ensures
        state.create_reporter(caller, target, level).0 is Err,
        state.update_reporter(caller, target, level).0 is Err,
        Roles::spec_from_level(level) is Some ==> {
            &&& state.create_reporter(caller, target, level).0 == Err::<Option<u8>, ProxyError>(
                ProxyError::Unauthorized(Privilege::OwnerOrAuthority),
            )
            &&& state.update_reporter(caller, target, level).0 == Err::<bool, ProxyError>(
                ProxyError::Unauthorized(Privilege::OwnerOrAuthority),
            )
        },
{
}

/// An account with the role of an authority can do both: it creates and
/// updates addresses as a reporter does, and it creates any reporter that is
/// not there and updates any that is, with any level that stands for a role.
pub proof fn law_authority_manages_both(
    state: ProxyState,
    caller: Seq<char>,
    target: Seq<char>,
    level: u8,
    category: Category,
    risk: u8,
)
    requires
        state.reporters.contains_key(caller),
        state.reporters[caller] == Roles::Authority,
        Roles::spec_from_level(level) is Some,
        risk <= MAX_RISK,
    ensures
        !state.addresses.contains_key(target) ==> state.create_address(caller, target, category, risk).0 is Ok,
        state.addresses.contains_key(target) ==> state.update_address(caller, target, category, risk).0 is Ok,
        !state.reporters.contains_key(target) ==> state.create_reporter(caller, target, level).0 is Ok,
        state.reporters.contains_key(target) ==> state.update_reporter(caller, target, level).0 is Ok,
{
}

/// The owner can always manage reporters, with or without an entry of its
/// own in the reporter table.
pub proof fn law_owner_manages_reporters(state: ProxyState, target: Seq<char>, level: u8)
    requires
        Roles::spec_from_level(level) is Some,
    ensures
        !state.reporters.contains_key(target) ==> state.create_reporter(state.owner, target, level).0 is Ok,
        state.reporters.contains_key(target) ==> state.update_reporter(state.owner, target, level).0 is Ok,
{
}

/// Being the owner is no role: an owner without an entry in the reporter
/// table cannot create or update addresses.
pub proof fn law_owner_is_no_reporter(state: ProxyState, target: Seq<char>, category: Category, risk: u8)
    requires
        !state.reporters.contains_key(state.owner),
    ensures
        state.create_address(state.owner, target, category, risk).0 == Err::<bool, ProxyError>(
            ProxyError::Unauthorized(Privilege::Reporter),
        ),
        state.update_address(state.owner, target, category, risk).0 == Err::<(), ProxyError>(
            ProxyError::Unauthorized(Privilege::Reporter),
        ),
{
}

/// Creating and updating an address with a risk score above [`MAX_RISK`] are
/// refused, for any category; they are refused as `InvalidRisk` when the
/// caller is a reporter.
pub proof fn law_risk_bound(state: ProxyState, caller: Seq<char>, target: Seq<char>, category: Category, risk: u8)
    requires
        risk > MAX_RISK,
    ensures
        state.create_address(caller, target, category, risk).0 is Err,
        state.update_address(caller, target, category, risk).0 is Err,
        state.is_reporter(caller) ==> {
            &&& state.create_address(caller, target, category, risk).0 == Err::<bool, ProxyError>(
                ProxyError::InvalidRisk,
            )
            &&& state.update_address(caller, target, category, risk).0 == Err::<(), ProxyError>(
                ProxyError::InvalidRisk,
            )
        },
{
}

/// Whatever the registry holds, a role that is read from it is a reporter's
/// or an authority's: no other permission level is kept.
pub proof fn law_kept_levels_are_roles(state: ProxyState, target: Seq<char>)
    ensures
        state.levels().contains_key(target) <==> state.reporters.contains_key(target),
        state.levels().contains_key(target) ==> state.levels()[target] == Roles::Reporter.spec_level()
            || state.levels()[target] == Roles::Authority.spec_level(),
        state.get_reporter(target) matches Ok(level) ==> level == state.levels()[target] && (level
            == Roles::Reporter.spec_level() || level == Roles::Authority.spec_level()),
{
}

/// Reading an account that is not flagged gives no category and the risk
/// score 0; reading one that is flagged gives its record.
pub proof fn law_read_default(state: ProxyState, target: Seq<char>)
    ensures
        !state.addresses.contains_key(target) ==> state.get_address(target) == (Category::Uncategorized, 0u8),
        state.addresses.contains_key(target) ==> state.get_address(target) == state.addresses[target],
{
}

/// What a successful write stores is what the next read gives back, and no
/// other account's record or role changes.
pub proof fn law_writes_are_read_back(
    state: ProxyState,
    caller: Seq<char>,
    target: Seq<char>,
    other: Seq<char>,
    level: u8,
    category: Category,
    risk: u8,
)
    requires
        other != target,
    ensures
        state.create_address(caller, target, category, risk).0 is Ok ==> {
            let after = state.create_address(caller, target, category, risk).1;
            after.get_address(target) == (category, risk) && after.get_address(other) == state.get_address(other)
        },
        state.update_address(caller, target, category, risk).0 is Ok ==> {
            let after = state.update_address(caller, target, category, risk).1;
            after.get_address(target) == (category, risk) && after.get_address(other) == state.get_address(other)
        },
        state.create_reporter(caller, target, level).0 is Ok ==> {
            let after = state.create_reporter(caller, target, level).1;
            after.get_reporter(target) == Ok::<u8, ProxyError>(level) && after.get_reporter(other)
                == state.get_reporter(other)
        },
        state.update_reporter(caller, target, level).0 is Ok ==> {
            let after = state.update_reporter(caller, target, level).1;
            after.get_reporter(target) == Ok::<u8, ProxyError>(level) && after.get_reporter(other)
                == state.get_reporter(other)
        },
{
}

/// A registry that is restored from the rows that list another, with the same
/// owner, is that other registry: saving and restoring loses nothing.
pub proof fn law_restoring_gives_back_what_was_saved(
    saved: ProxyState,
    restored: ProxyState,
    reporter_rows: Seq<(Seq<char>, u8)>,
    address_rows: Seq<(Seq<char>, (Category, u8))>,
)
    requires
        is_listing(reporter_rows, saved.levels()),
        is_listing(address_rows, saved.addresses),
        is_listing(reporter_rows, restored.levels()),
        is_listing(address_rows, restored.addresses),
        restored.owner == saved.owner,
    ensures
        restored == saved,
{
    lemma_listing_determines_table(reporter_rows, saved.levels(), restored.levels());
    lemma_listing_determines_table(address_rows, saved.addresses, restored.addresses);
    assert forall|account: Seq<char>|
        restored.reporters.contains_key(account) == saved.reporters.contains_key(account) by {
        assert(saved.levels().contains_key(account) == saved.reporters.contains_key(account));
        assert(restored.levels().contains_key(account) == restored.reporters.contains_key(account));
    }
    assert forall|account: Seq<char>| saved.reporters.contains_key(account) implies restored.reporters[account]
        == saved.reporters[account] by {
        assert(saved.levels().contains_key(account));
        assert(restored.levels().contains_key(account));
        assert(saved.levels()[account] == saved.reporters[account].spec_level());
        assert(restored.levels()[account] == restored.reporters[account].spec_level());
        assert(Roles::spec_from_level(saved.reporters[account].spec_level()) == Some(saved.reporters[account]));
        assert(Roles::spec_from_level(restored.reporters[account].spec_level()) == Some(
            restored.reporters[account],
        ));
    }
    assert(restored.reporters =~= saved.reporters);
    assert(restored =~= saved);
}

} // verus!

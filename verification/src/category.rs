//! Why an account is flagged, and how badly.

use vstd::prelude::*;
use crate::error::ProxyError;

verus! {

/// The highest risk score.
pub const MAX_RISK: u8 = 10;

/// The kind of activity that an account is flagged for.
#[derive(Clone, Copy, Debug, PartialEq, Eq, Structural)]
pub enum Category {
    /// No category.
    Uncategorized,
    /// Wallet service: custodial or mixed wallets.
    WalletService,
    /// Merchant service.
    MerchantService,
    /// Mining pool.
    MiningPool,
    /// Exchange.
    Exchange,
    /// DeFi application.
    DeFi,
    /// OTC broker.
    OTCBroker,
    /// Cryptocurrency ATM.
    ATM,
    /// Gambling.
    Gambling,
    /// Illicit organization.
    IllicitOrganization,
    /// Mixer.
    Mixer,
    /// Darknet market or service.
    DarknetService,
    /// Scam.
    Scam,
    /// Ransomware.
    Ransomware,
    /// Theft: stolen funds.
    Theft,
    /// Counterfeit: fake assets.
    Counterfeit,
    /// Terrorist financing.
    TerroristFinancing,
    /// Sanctions.
    Sanctions,
    /// Child abuse and porn materials.
    ChildAbuse,
}

/// What the registry records of a flagged account: a category and a risk
/// score of at most [`MAX_RISK`].
#[derive(Clone, Copy, Debug, PartialEq, Eq)]
pub struct AddressInfo {
    category: Category,
    risk: u8,
}

impl View for AddressInfo {
    type V = (Category, u8);

    closed spec fn view(&self) -> (Category, u8) {
        (self.category, self.risk)
    }
}

impl AddressInfo {
    /// No record holds a risk score above [`MAX_RISK`].
    #[verifier::type_invariant]
    pub open spec fn risk_in_range(self) -> bool {
        self@.1 <= MAX_RISK
    }

    /// Makes a record, unless `risk` is above [`MAX_RISK`].
    pub fn new(category: Category, risk: u8) -> (info: Result<AddressInfo, ProxyError>)
        ensures
            risk <= MAX_RISK ==> info is Ok && info->Ok_0@ == (category, risk),
            risk > MAX_RISK ==> info == Err::<AddressInfo, ProxyError>(ProxyError::InvalidRisk),
    {
        if risk <= MAX_RISK {
            Ok(AddressInfo { category, risk })
        } else {
            Err(ProxyError::InvalidRisk)
        }
    }

    /// The category of the record.
    pub fn category(&self) -> (category: Category)
        ensures
            category == self@.0,
    {
        self.category
    }

    /// The risk score of the record.
    pub fn risk(&self) -> (risk: u8)
        ensures
            risk == self@.1,
            risk <= MAX_RISK,
    {
        proof {
            use_type_invariant(self);
        }
        self.risk
    }
}

} // verus!

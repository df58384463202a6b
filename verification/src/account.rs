//! Account identifiers.

use vstd::prelude::*;

verus! {

/// The shortest account name that is accepted.
pub const MIN_ACCOUNT_ID_LEN: usize = 2;

/// The longest account name that is accepted.
pub const MAX_ACCOUNT_ID_LEN: usize = 64;

/// A lower-case letter or a digit: what the parts of an account name are made of.
pub open spec fn is_name_char(c: char) -> bool {
    ('a' <= c && c <= 'z') || ('0' <= c && c <= '9')
}

/// One of the three characters that join the parts of an account name.
pub open spec fn is_separator(c: char) -> bool {
    c == '-' || c == '_' || c == '.'
}

/// The grammar of account names: between 2 and 64 characters, each a
/// lower-case letter, a digit or a separator, where no separator stands first,
/// last, or next to another separator.
pub open spec fn well_formed_account_id(name: Seq<char>) -> bool {
    &&& MIN_ACCOUNT_ID_LEN <= name.len() <= MAX_ACCOUNT_ID_LEN
    &&& forall|i: int| 0 <= i < name.len() ==> is_name_char(#[trigger] name[i]) || is_separator(name[i])
    &&& !is_separator(name[0])
    &&& !is_separator(name[name.len() - 1])
    &&& forall|i: int| 0 < i < name.len() ==> !(is_separator(name[i - 1]) && is_separator(#[trigger] name[i]))
}

/// Asks `near_sdk::env::is_valid_account_id` whether `name` is an account name.
///
/// Trusted: the result is claimed to be exactly [`well_formed_account_id`].
/// The outside function works on the bytes of the name. It refuses every byte
/// that is not a lower-case ASCII letter, a digit or one of `-`, `_`, `.`, so
/// an accepted name is pure ASCII and its bytes and characters are the same.
#[verifier::external_body]
fn is_valid_account_id(name: &str) -> (valid: bool)
    ensures
        valid == well_formed_account_id(name@),
{
    near_sdk::env::is_valid_account_id(name.as_bytes())
}

/// The name of an account: a string that follows the grammar of account names.
#[derive(Debug)]
pub struct AccountId {
    name: String,
}

impl View for AccountId {
    type V = Seq<char>;

    closed spec fn view(&self) -> Seq<char> {
        self.name@
    }
}

impl AccountId {
    /// Every account identifier is well formed.
    #[verifier::type_invariant]
    pub open spec fn well_formed(self) -> bool {
        well_formed_account_id(self@)
    }

    /// Makes an account identifier of `name`, if `name` is well formed.
    pub fn new(name: &str) -> (account: Option<AccountId>)
        ensures
            account is Some <==> well_formed_account_id(name@),
            account matches Some(a) ==> a@ == name@,
    {
        if is_valid_account_id(name) {
            Some(AccountId { name: name.to_owned() })
        } else {
            None
        }
    }

    /// The account's name.
    pub fn as_str(&self) -> (name: &str)
        ensures
            name@ == self@,
            well_formed_account_id(name@),
    {
        proof {
            use_type_invariant(self);
        }
        self.name.as_str()
    }
}

impl Clone for AccountId {
    fn clone(&self) -> (copy: Self)
        ensures
            copy@ == self@,
    {
        proof {
            use_type_invariant(self);
        }
        AccountId { name: self.name.clone() }
    }
}

impl PartialEq for AccountId {
    fn eq(&self, other: &Self) -> (equal: bool) {
        self.name == other.name
    }
}

impl Eq for AccountId {}

impl vstd::std_specs::cmp::PartialEqSpecImpl for AccountId {
    open spec fn obeys_eq_spec() -> bool {
        true
    }

    open spec fn eq_spec(&self, other: &Self) -> bool {
        self@ == other@
    }
}

} // verus!

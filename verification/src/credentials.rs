//! Credentials — which backend resolves `${VAR}` placeholders first.
//!
//! The process environment is always consulted after the preferred backend.

use vstd::prelude::*;

verus! {

/// The preferred credential backend for `${VAR}` resolution.
#[derive(Debug, Clone, Copy, PartialEq, Eq, Default)]
pub enum CredentialStoreChoice {
    /// The OS keychain.
    #[default]
    Keyring,
    /// The process environment only.
    Env,
}

/// The value a placeholder resolves to: the preferred backend's value when
/// it has one, otherwise the process environment's. With the environment
/// as the preferred backend only the environment is consulted.
pub open spec fn spec_credential_value(
    choice: CredentialStoreChoice,
    keyring: Option<String>,
    environment: Option<String>,
) -> Option<String> {
    match choice {
        CredentialStoreChoice::Keyring => match keyring {
            Some(v) => Some(v),
            None => environment,
        },
        CredentialStoreChoice::Env => environment,
    }
}

/// Merge the lookups of one placeholder in resolution order: preferred
/// backend first, then the process environment.
pub fn credential_value(
    choice: CredentialStoreChoice,
    keyring: Option<String>,
    environment: Option<String>,
) -> (r: Option<String>)
    ensures
        r == spec_credential_value(choice, keyring, environment),
        choice is Env ==> r == environment,
        choice is Keyring && keyring is Some ==> r == keyring,
        choice is Keyring && keyring is None ==> r == environment,
{
    match choice {
        CredentialStoreChoice::Keyring => match keyring {
            Some(v) => Some(v),
            None => environment,
        },
        CredentialStoreChoice::Env => environment,
    }
}

/// The lookup order of a placeholder. With the environment as the preferred
/// backend the result is exactly the environment's value, whatever the
/// keychain would hold; with the keychain preferred, its value wins when it
/// has one and the environment's value is the fallback. A value is found
/// exactly when one of the consulted backends has one.
pub proof fn law_credential_lookup_order(keyring: Option<String>, environment: Option<String>)
    ensures
        spec_credential_value(CredentialStoreChoice::Env, keyring, environment) == environment,
        forall|other: Option<String>|
            #[trigger] spec_credential_value(CredentialStoreChoice::Env, other, environment)
                == spec_credential_value(CredentialStoreChoice::Env, keyring, environment),
        keyring is Some ==> spec_credential_value(CredentialStoreChoice::Keyring, keyring, environment)
            == keyring,
        keyring is None ==> spec_credential_value(CredentialStoreChoice::Keyring, keyring, environment)
            == environment,
        spec_credential_value(CredentialStoreChoice::Keyring, keyring, environment) is Some <==> (
        keyring is Some || environment is Some),
{
}

} // verus!

use sargon_mfa::factor_instances_provider::agnostic_paths::{DerivationPreset, CACHE_FILLING_QUANTITY};
use sargon_mfa::factor_instances_provider::network_agnostic::NetworkIndexAgnosticPath;
use sargon_mfa::factor_instances_provider::provider::factor_instances_cache::{
    FactorInstancesCache, QuantifiedDerivationPreset, QuantitiesPerFactorSource,
};
use sargon_mfa::factor_instances_provider::provider::outcome::{
    FactorInstancesProviderOutcome, FactorInstancesProviderOutcomeForFactor, InternalFactorInstancesProviderOutcome,
};
use sargon_mfa::factor_instances_provider::provider::provider::{FactorInstancesProvider, ProviderStep};
use sargon_mfa::types::derivation::{CAP26EntityKind, CAP26KeyKind, DerivationPath, HDPathComponent, KeySpace};
use sargon_mfa::types::appendable::OrderedSet;
use sargon_mfa::types::entities::{
    AccessController, Account, AccountAddress, AddressOfAccountOrPersona, EntitySecurityState, MatrixOfFactorInstances,
    MatrixOfFactorSources, Profile, SecurifiedEntityControl, ThirdPartyDepositPreference, VirtualEntityCreatingFactorInstance,
};
use sargon_mfa::types::factor_instances::FactorInstances;
use sargon_mfa::types::keys::{FactorSourceIDFromHash, FactorSourceKind, HDFactorSource, HierarchicalDeterministicFactorInstance};
use sargon_mfa::types::network::NetworkID;
use sargon_mfa::types::ordered_map::OrderedMap;

/// Derives mocked instances at the paths the provider asks for.
fn derive_more(
    quantities: &QuantitiesPerFactorSource,
    network_id: NetworkID,
    profile: Option<Profile>,
    cache: &FactorInstancesCache,
) -> OrderedMap<FactorSourceIDFromHash, FactorInstances> {
    let paths = FactorInstancesProvider::paths_to_derive(quantities, network_id, profile, cache).unwrap();
    let mut out = OrderedMap::new();
    for f in paths.keys() {
        let instances = paths
            .get(&f)
            .unwrap()
            .elements()
            .into_iter()
            .map(|p| HierarchicalDeterministicFactorInstance::mocked(f, p))
            .collect::<Vec<_>>();
        out.insert(f, FactorInstances::new(instances));
    }
    out
}

/// Takes from the cache, or derives more and caches the rest.
fn provide(
    network_id: NetworkID,
    factor_source_ids: Vec<FactorSourceIDFromHash>,
    q: QuantifiedDerivationPreset,
    profile: Option<Profile>,
    cache: &mut FactorInstancesCache,
) -> InternalFactorInstancesProviderOutcome {
    match FactorInstancesProvider::provide_from_cache(network_id, &factor_source_ids, q, cache) {
        ProviderStep::SatisfiedByCache(found) => InternalFactorInstancesProviderOutcome::satisfied_by_cache(found),
        ProviderStep::DeriveMore { partial_instances, quantities_to_derive } => {
            let derived = derive_more(&quantities_to_derive, network_id, profile, cache);
            assert!(FactorInstancesProvider::caching_succeeds(&q, &factor_source_ids, cache, &partial_instances, &derived));
            FactorInstancesProvider::derive_more_and_cache(&q, &factor_source_ids, cache, partial_instances, derived).unwrap()
        },
    }
}

fn for_account_veci(
    cache: &mut FactorInstancesCache,
    profile: Option<Profile>,
    factor_source: HDFactorSource,
    network_id: NetworkID,
) -> FactorInstancesProviderOutcomeForFactor {
    let f = factor_source.factor_source_id();
    let q = QuantifiedDerivationPreset::new(DerivationPreset::AccountVeci, 1);
    let mut outcome = FactorInstancesProviderOutcome::from(provide(network_id, vec![f], q, profile, cache));
    let index = outcome.per_factor.index_of(&f).unwrap();
    outcome.per_factor.remove_at(index).1
}

fn cached_paths(cache: &FactorInstancesCache, f: FactorSourceIDFromHash, p: NetworkIndexAgnosticPath, network: NetworkID) -> Vec<DerivationPath> {
    cache
        .peek_all_instances_of_factor_source(f)
        .unwrap()
        .get(&p.on_network(network))
        .unwrap()
        .factor_instances()
        .into_iter()
        .map(|x| x.derivation_path())
        .collect()
}

fn check_kind(paths: &[DerivationPath], entity_kind: CAP26EntityKind, key_space: KeySpace, network: NetworkID) {
    assert!(paths.iter().all(|x| x.entity_kind == entity_kind
        && x.network_id == network
        && x.key_space() == key_space
        && x.key_kind == CAP26KeyKind::TransactionSigning));
}

#[test]
fn cache_is_always_filled_account_veci_then_after_all_used_we_start_over_at_zero_if_no_profile_is_used() {
    let network = NetworkID::Mainnet;
    let bdfs = HDFactorSource::sample();
    let f = bdfs.factor_source_id();
    let mut cache = FactorInstancesCache::default();

    let outcome = for_account_veci(&mut cache, None, bdfs, network);
    assert_eq!(outcome.factor_source_id, f);
    assert_eq!(outcome.debug_found_in_cache.len(), 0);
    assert_eq!(outcome.debug_was_cached.len(), NetworkIndexAgnosticPath::all_presets().len() * CACHE_FILLING_QUANTITY);
    assert_eq!(outcome.debug_was_derived.len(), NetworkIndexAgnosticPath::all_presets().len() * CACHE_FILLING_QUANTITY + 1);
    let used = outcome.to_use_directly.factor_instances();
    assert_eq!(used.len(), 1);
    assert_eq!(used[0].derivation_entity_index(), HDPathComponent::unsecurified_hardening_base_index(0));
    assert!(cache.is_full(network, f));

    let account_veci = cached_paths(&cache, f, NetworkIndexAgnosticPath::account_veci(), network);
    assert_eq!(account_veci.len(), CACHE_FILLING_QUANTITY);
    check_kind(&account_veci, CAP26EntityKind::Account, KeySpace::Unsecurified, network);
    assert_eq!(account_veci.first().unwrap().index, HDPathComponent::unsecurified_hardening_base_index(1));
    assert_eq!(account_veci.last().unwrap().index, HDPathComponent::unsecurified_hardening_base_index(30));

    let account_mfa = cached_paths(&cache, f, NetworkIndexAgnosticPath::account_mfa(), network);
    check_kind(&account_mfa, CAP26EntityKind::Account, KeySpace::Securified, network);
    assert_eq!(account_mfa.first().unwrap().index, HDPathComponent::securifying_base_index(0));
    assert_eq!(account_mfa.last().unwrap().index, HDPathComponent::securifying_base_index(29));

    let identity_mfa = cached_paths(&cache, f, NetworkIndexAgnosticPath::identity_mfa(), network);
    check_kind(&identity_mfa, CAP26EntityKind::Identity, KeySpace::Securified, network);
    assert_eq!(identity_mfa.first().unwrap().index, HDPathComponent::securifying_base_index(0));
    assert_eq!(identity_mfa.last().unwrap().index, HDPathComponent::securifying_base_index(29));

    let identity_veci = cached_paths(&cache, f, NetworkIndexAgnosticPath::identity_veci(), network);
    check_kind(&identity_veci, CAP26EntityKind::Identity, KeySpace::Unsecurified, network);
    assert_eq!(identity_veci.first().unwrap().index, HDPathComponent::unsecurified_hardening_base_index(0));
    assert_eq!(identity_veci.last().unwrap().index, HDPathComponent::unsecurified_hardening_base_index(29));

    // another account: found in the cache
    let outcome = for_account_veci(&mut cache, None, bdfs, network);
    assert_eq!(outcome.factor_source_id, f);
    assert_eq!(outcome.debug_found_in_cache.len(), 1);
    assert_eq!(outcome.debug_was_cached.len(), 0);
    assert_eq!(outcome.debug_was_derived.len(), 0);
    let used = outcome.to_use_directly.factor_instances();
    assert_eq!(used.len(), 1);
    assert_eq!(used[0].derivation_entity_index(), HDPathComponent::unsecurified_hardening_base_index(1));
    assert!(!cache.is_full(network, f));
    let account_veci = cached_paths(&cache, f, NetworkIndexAgnosticPath::account_veci(), network);
    assert_eq!(account_veci.len(), CACHE_FILLING_QUANTITY - 1);
    check_kind(&account_veci, CAP26EntityKind::Account, KeySpace::Unsecurified, network);
    assert_eq!(account_veci.first().unwrap().index, HDPathComponent::unsecurified_hardening_base_index(2));
    assert_eq!(account_veci.last().unwrap().index, HDPathComponent::unsecurified_hardening_base_index(30));

    for _ in 0..29 {
        let outcome = for_account_veci(&mut cache, None, bdfs, network);
        assert_eq!(outcome.factor_source_id, f);
        assert_eq!(outcome.debug_found_in_cache.len(), 1);
        assert_eq!(outcome.debug_was_cached.len(), 0);
        assert_eq!(outcome.debug_was_derived.len(), 0);
    }
    assert!(
        cache
            .peek_all_instances_of_factor_source(f)
            .unwrap()
            .get(&NetworkIndexAgnosticPath::account_veci().on_network(network))
            .is_none(),
        "should have used the last instance..."
    );

    // one more: only account vecis are derived, 30 to cache and 1 to use
    let outcome = for_account_veci(&mut cache, None, bdfs, network);
    assert_eq!(outcome.factor_source_id, f);
    assert_eq!(outcome.debug_found_in_cache.len(), 0);
    assert_eq!(outcome.debug_was_cached.len(), CACHE_FILLING_QUANTITY);
    assert_eq!(outcome.debug_was_derived.len(), CACHE_FILLING_QUANTITY + 1);
    let used = outcome.to_use_directly.factor_instances();
    assert_eq!(used.len(), 1);
    // without a profile, index 0 is used again
    assert_eq!(used[0].derivation_entity_index(), HDPathComponent::unsecurified_hardening_base_index(0));
}

#[test]
fn factor_instances_provider_unit_tests_add_factor_source() {
    let mut cache = FactorInstancesCache::default();
    assert_eq!(cache.total_number_of_factor_instances(), 0);
    let factor_source = HDFactorSource::sample();
    let f = factor_source.factor_source_id();
    let quantities = FactorInstancesProvider::new_factor_source_quantities(f);
    let derived = derive_more(&quantities, NetworkID::Mainnet, None, &cache);
    assert!(cache.can_insert_all(&derived));
    let outcome = FactorInstancesProvider::cache_new_factor_source(&mut cache, f, &derived).unwrap();
    assert_eq!(outcome.debug_found_in_cache.len(), 0);
    assert_eq!(outcome.debug_was_cached.len(), NetworkIndexAgnosticPath::all_presets().len() * CACHE_FILLING_QUANTITY);
    assert_eq!(outcome.debug_was_derived.len(), NetworkIndexAgnosticPath::all_presets().len() * CACHE_FILLING_QUANTITY);
    assert!(cache.is_full(NetworkID::Mainnet, f), "Should have put factors into the cache.");
}

/// A wallet: a profile and a cache of factor instances.
struct Wallet {
    cache: FactorInstancesCache,
    profile: Profile,
}

impl Wallet {
    fn new() -> Self {
        Wallet { cache: FactorInstancesCache::default(), profile: Profile::new(vec![], vec![], vec![]) }
    }

    fn with_bdfs() -> (Self, HDFactorSource) {
        let mut w = Self::new();
        let bdfs = HDFactorSource::device();
        w.add_factor_source(bdfs);
        (w, bdfs)
    }

    fn add_factor_source(&mut self, factor_source: HDFactorSource) {
        assert!(!self.profile.factor_sources.contains(&factor_source), "factor already in Profile");
        let f = factor_source.factor_source_id();
        let quantities = FactorInstancesProvider::new_factor_source_quantities(f);
        let derived = derive_more(&quantities, NetworkID::Mainnet, Some(self.profile.clone()), &self.cache);
        assert!(self.cache.can_insert_all(&derived));
        let outcome = FactorInstancesProvider::cache_new_factor_source(&mut self.cache, f, &derived).unwrap();
        assert_eq!(outcome.factor_source_id, f);
        assert_eq!(outcome.debug_found_in_cache.len(), 0);
        assert_eq!(outcome.debug_was_cached.len(), NetworkIndexAgnosticPath::all_presets().len() * CACHE_FILLING_QUANTITY);
        assert_eq!(outcome.debug_was_derived.len(), NetworkIndexAgnosticPath::all_presets().len() * CACHE_FILLING_QUANTITY);
        self.profile.factor_sources.push(factor_source);
    }

    fn new_account(&mut self, factor_source: HDFactorSource, network: NetworkID, name: &str) -> (Account, FactorInstancesProviderOutcomeForFactor) {
        let outcome = for_account_veci(&mut self.cache, Some(self.profile.clone()), factor_source, network);
        let used = outcome.to_use_directly.factor_instances();
        assert_eq!(used.len(), 1);
        let instance = used[0];
        let address = AccountAddress::new(network, instance.public_key_hash());
        let account = Account::new(
            name.to_string(),
            address,
            EntitySecurityState::Unsecured(instance),
            ThirdPartyDepositPreference::AcceptKnown,
        );
        self.profile.accounts.push(account.clone());
        (account, outcome)
    }

    fn new_mainnet_account_with_bdfs(&mut self, name: &str) -> (Account, FactorInstancesProviderOutcomeForFactor) {
        let bdfs = self.profile.factor_sources[0];
        self.new_account(bdfs, NetworkID::Mainnet, name)
    }

    /// Securifies `accounts` with `shield`; each account takes, per factor
    /// source of the shield, the next instance to use directly.
    fn securify(&mut self, accounts: Vec<Account>, shield: MatrixOfFactorSources) -> (Vec<Account>, FactorInstancesProviderOutcome) {
        let addresses = OrderedSet::from_vec(accounts.iter().map(|a| AddressOfAccountOrPersona::Account(a.address)).collect());
        let (network_id, factor_source_ids, q) =
            FactorInstancesProvider::entity_mfa_request::<Account>(&self.profile, &shield, &addresses);
        let outcome = FactorInstancesProviderOutcome::from(provide(network_id, factor_source_ids, q, Some(self.profile.clone()), &mut self.cache));
        let mut queues: Vec<(FactorSourceIDFromHash, Vec<HierarchicalDeterministicFactorInstance>)> = outcome
            .per_factor
            .keys()
            .into_iter()
            .map(|f| (f, outcome.per_factor.get(&f).unwrap().to_use_directly.factor_instances()))
            .collect();
        let mut next = |f: FactorSourceIDFromHash| -> HierarchicalDeterministicFactorInstance {
            let q = queues.iter_mut().find(|(g, _)| *g == f).unwrap();
            q.1.remove(0)
        };
        let mut updated = Vec::new();
        for a in accounts.iter() {
            let threshold = shield.threshold_factors.iter().map(|f| next(f.factor_source_id())).collect();
            let overrides = shield.override_factors.iter().map(|f| next(f.factor_source_id())).collect();
            let matrix = MatrixOfFactorInstances::new(threshold, shield.threshold, overrides);
            let address = AddressOfAccountOrPersona::Account(a.address);
            let (access_controller, veci) = match &a.security_state {
                EntitySecurityState::Unsecured(fi) => (
                    AccessController::from_unsecurified_address(address),
                    Some(VirtualEntityCreatingFactorInstance::new(address, *fi)),
                ),
                EntitySecurityState::Securified(sec) => (sec.access_controller.clone(), sec.veci),
            };
            let sec = SecurifiedEntityControl::new(matrix, access_controller, veci);
            let account = Account::new(a.name.clone(), a.address, EntitySecurityState::Securified(sec), a.third_party_deposit);
            for p in self.profile.accounts.iter_mut() {
                if p.address == account.address {
                    *p = account.clone();
                }
            }
            updated.push(account);
        }
        assert!(queues.iter().all(|(_, q)| q.is_empty()), "should have used all instances");
        (updated, outcome)
    }

    fn clear_cache(&mut self) {
        self.cache = FactorInstancesCache::default();
    }
}

fn unsecurified_index(a: &Account) -> HDPathComponent {
    match &a.security_state {
        EntitySecurityState::Unsecured(f) => f.derivation_entity_index(),
        EntitySecurityState::Securified(_) => panic!("expected an unsecurified account"),
    }
}

#[test]
fn create_accounts_when_last_is_used_cache_is_fill_only_with_account_vecis_and_if_profile_is_used_a_new_account_is_created() {
    let (mut os, bdfs) = Wallet::with_bdfs();
    for i in 0..CACHE_FILLING_QUANTITY {
        let name = format!("Acco {}", i);
        let (acco, stats) = os.new_mainnet_account_with_bdfs(&name);
        assert_eq!(acco.name, name);
        assert_eq!(stats.debug_was_cached.len(), 0);
        assert_eq!(stats.debug_was_derived.len(), 0);
    }
    assert_eq!(os.profile.accounts.len(), CACHE_FILLING_QUANTITY);

    let (acco, stats) = os.new_mainnet_account_with_bdfs("newly derive");
    assert_eq!(os.profile.accounts.len(), CACHE_FILLING_QUANTITY + 1);
    assert_eq!(stats.debug_was_cached.len(), CACHE_FILLING_QUANTITY);
    assert_eq!(stats.debug_was_derived.len(), CACHE_FILLING_QUANTITY + 1);
    assert_eq!(unsecurified_index(&acco), HDPathComponent::unsecurified_hardening_base_index(30));
    assert!(os.cache.is_full(NetworkID::Mainnet, bdfs.factor_source_id()));

    let (acco, stats) = os.new_mainnet_account_with_bdfs("newly derive 2");
    assert_eq!(os.profile.accounts.len(), CACHE_FILLING_QUANTITY + 2);
    assert_eq!(stats.debug_was_cached.len(), 0);
    assert_eq!(stats.debug_was_derived.len(), 0);
    assert_eq!(unsecurified_index(&acco), HDPathComponent::unsecurified_hardening_base_index(31));
    assert!(!os.cache.is_full(NetworkID::Mainnet, bdfs.factor_source_id()), "just consumed one, so not full");
}

#[test]
fn adding_accounts_and_clearing_cache_in_between() {
    let (mut os, _) = Wallet::with_bdfs();
    assert!(os.profile.accounts.is_empty());
    let (alice, stats) = os.new_mainnet_account_with_bdfs("alice");
    assert!(!stats.debug_found_in_cache.is_empty());
    assert!(stats.debug_was_cached.is_empty());
    assert!(stats.debug_was_derived.is_empty());
    os.clear_cache();

    let (bob, stats) = os.new_mainnet_account_with_bdfs("bob");
    assert!(stats.debug_found_in_cache.is_empty());
    assert!(!stats.debug_was_cached.is_empty());
    assert!(!stats.debug_was_derived.is_empty());
    assert_ne!(alice, bob);
    assert_eq!(os.profile.accounts.len(), 2);
}

#[test]
fn adding_accounts_different_networks_different_factor_sources() {
    let mut os = Wallet::new();
    assert_eq!(os.cache.total_number_of_factor_instances(), 0);
    let fs_device = HDFactorSource::device();
    let fs_arculus = HDFactorSource::new(FactorSourceIDFromHash::new(FactorSourceKind::Arculus, 1));
    let fs_ledger = HDFactorSource::new(FactorSourceIDFromHash::new(FactorSourceKind::Ledger, 2));
    os.add_factor_source(fs_device);
    os.add_factor_source(fs_arculus);
    os.add_factor_source(fs_ledger);
    assert_eq!(os.cache.total_number_of_factor_instances(), 3 * 4 * CACHE_FILLING_QUANTITY);
    assert!(os.profile.accounts.is_empty());
    assert_eq!(os.profile.factor_sources.len(), 3);

    let mut accounts = Vec::new();
    for (fs, network, name, derives) in [
        (fs_device, NetworkID::Mainnet, "Alice", false),
        (fs_device, NetworkID::Mainnet, "Bob", false),
        (fs_device, NetworkID::Stokenet, "Carol", true),
        (fs_device, NetworkID::Stokenet, "Diana", false),
        (fs_arculus, NetworkID::Mainnet, "Erin", false),
        (fs_arculus, NetworkID::Mainnet, "Frank", false),
        (fs_arculus, NetworkID::Stokenet, "Grace", true),
        (fs_arculus, NetworkID::Stokenet, "Helena", false),
        (fs_ledger, NetworkID::Mainnet, "isabel", false),
        (fs_ledger, NetworkID::Mainnet, "Jenny", false),
        (fs_ledger, NetworkID::Stokenet, "Klara", true),
        (fs_ledger, NetworkID::Stokenet, "Lisa", false),
    ] {
        let (account, stats) = os.new_account(fs, network, name);
        assert_eq!(!stats.debug_was_derived.is_empty(), derives, "{}", name);
        accounts.push(account);
    }
    assert_eq!(os.profile.accounts.len(), 12);
    let factor_source_count = 3;
    let network_count = 2;
    assert_eq!(
        os.cache.total_number_of_factor_instances(),
        network_count * factor_source_count * NetworkIndexAgnosticPath::all_presets().len() * CACHE_FILLING_QUANTITY
            - accounts.len()
            + factor_source_count
    );
    let addresses: Vec<AccountAddress> = os.profile.accounts.iter().map(|a| a.entity_address()).collect();
    for a in accounts.iter() {
        assert!(addresses.contains(&a.entity_address()));
    }
}

fn matrix_of(a: &Account) -> MatrixOfFactorInstances {
    match &a.security_state {
        EntitySecurityState::Securified(sec) => sec.matrix.clone(),
        EntitySecurityState::Unsecured(_) => panic!("expected a securified account"),
    }
}

fn veci_of(a: &Account) -> Option<HierarchicalDeterministicFactorInstance> {
    match &a.security_state {
        EntitySecurityState::Securified(sec) => sec.veci.map(|v| v.factor_instance),
        EntitySecurityState::Unsecured(fi) => Some(*fi),
    }
}

#[test]
fn securified_accounts() {
    let (mut os, bdfs) = Wallet::with_bdfs();
    let alice = os.new_account(bdfs, NetworkID::Mainnet, "Alice").0;
    let bob = os.new_account(bdfs, NetworkID::Mainnet, "Bob").0;
    assert_ne!(alice.address, bob.address);
    let ledger = HDFactorSource::new(FactorSourceIDFromHash::new(FactorSourceKind::Ledger, 1));
    let arculus = HDFactorSource::new(FactorSourceIDFromHash::new(FactorSourceKind::Arculus, 2));
    let yubikey = HDFactorSource::new(FactorSourceIDFromHash::new(FactorSourceKind::Yubikey, 3));
    os.add_factor_source(ledger);
    os.add_factor_source(arculus);
    os.add_factor_source(yubikey);
    let shield_0 = MatrixOfFactorSources::new(vec![bdfs, ledger, arculus], 2, vec![]);

    let (securified, stats) = os.securify(vec![alice.clone(), bob.clone()], shield_0);
    assert!(!stats.derived_any_new_instance_for_any_factor_source(), "should have used cache");

    let alice_sec = securified.iter().find(|x| x.address == alice.address).unwrap();
    assert_eq!(veci_of(alice_sec), veci_of(&alice));
    let alice_matrix = matrix_of(alice_sec);
    assert_eq!(alice_matrix.threshold, 2);
    assert_eq!(
        alice_matrix.all_factors().iter().map(|f| f.factor_source_id()).collect::<Vec<_>>(),
        vec![bdfs.factor_source_id(), ledger.factor_source_id(), arculus.factor_source_id()]
    );
    assert_eq!(
        alice_matrix.all_factors().iter().map(|f| f.derivation_entity_index()).collect::<Vec<_>>(),
        vec![HDPathComponent::securifying_base_index(0); 3]
    );

    let bob_sec = securified.iter().find(|x| x.address == bob.address).unwrap();
    assert_eq!(veci_of(bob_sec), veci_of(&bob));
    let bob_matrix = matrix_of(bob_sec);
    assert_eq!(bob_matrix.threshold, 2);
    assert_eq!(
        bob_matrix.all_factors().iter().map(|f| f.factor_source_id()).collect::<Vec<_>>(),
        vec![bdfs.factor_source_id(), ledger.factor_source_id(), arculus.factor_source_id()]
    );
    assert_eq!(
        bob_matrix.all_factors().iter().map(|f| f.derivation_entity_index()).collect::<Vec<_>>(),
        vec![HDPathComponent::securifying_base_index(1); 3]
    );

    let carol = os.new_account(ledger, NetworkID::Mainnet, "Carol").0;
    assert_eq!(
        unsecurified_index(&carol).base_index(),
        0,
        "First account created with ledger, should have index 0, even though this ledger was used in the shield, since we are using two different KeySpaces for Securified and Unsecurified accounts."
    );

    let (securified, stats) = os.securify(vec![carol.clone()], MatrixOfFactorSources::new(vec![], 0, vec![yubikey]));
    assert!(!stats.derived_any_new_instance_for_any_factor_source(), "should have used cache");
    let carol_matrix = matrix_of(securified.iter().find(|x| x.address == carol.address).unwrap());
    assert_eq!(
        carol_matrix.all_factors().iter().map(|f| f.factor_source_id()).collect::<Vec<_>>(),
        vec![yubikey.factor_source_id()]
    );
    assert_eq!(
        carol_matrix.all_factors().iter().map(|f| f.derivation_entity_index()).collect::<Vec<_>>(),
        vec![HDPathComponent::securifying_base_index(0)]
    );

    // Alice and Bob now use the YubiKey only
    let (securified, stats) = os.securify(vec![alice.clone(), bob.clone()], MatrixOfFactorSources::new(vec![], 0, vec![yubikey]));
    assert!(!stats.derived_any_new_instance_for_any_factor_source(), "should have used cache");
    let alice_matrix = matrix_of(securified.iter().find(|x| x.address == alice.address).unwrap());
    assert_eq!(
        alice_matrix.all_factors().iter().map(|f| f.derivation_entity_index()).collect::<Vec<_>>(),
        vec![HDPathComponent::securifying_base_index(1)] // Carol used `0`.
    );
}

fn primary_role_indices(a: &Account) -> Vec<HDPathComponent> {
    matrix_of(a).threshold_factors.iter().map(|f| f.derivation_entity_index()).collect()
}

#[test]
fn securify_when_cache_is_half_full_single_factor_source() {
    let (mut os, bdfs) = Wallet::with_bdfs();
    assert_eq!(os.profile.factor_sources, vec![bdfs]);
    let n = CACHE_FILLING_QUANTITY / 2;
    for i in 0..3 * n {
        let _ = os.new_mainnet_account_with_bdfs(&format!("Acco: {}", i));
    }
    let shield_0 = MatrixOfFactorSources::new(vec![bdfs], 1, vec![]);
    let all_accounts = os.profile.accounts.clone();
    let first_half = all_accounts[0..n].to_vec();
    let second_half = all_accounts[n..3 * n].to_vec();
    assert_eq!(first_half.len() + second_half.len(), 3 * n);

    let (first, stats) = os.securify(first_half, shield_0.clone());
    assert!(!stats.derived_any_new_instance_for_any_factor_source(), "should have used cache");
    assert_eq!(
        first.iter().map(|a| primary_role_indices(a)[0]).collect::<Vec<_>>(),
        (0..15).map(HDPathComponent::securifying_base_index).collect::<Vec<_>>()
    );

    let (second, stats) = os.securify(second_half, shield_0);
    assert!(stats.derived_any_new_instance_for_any_factor_source(), "should have derived more");
    assert_eq!(
        second.iter().map(|a| primary_role_indices(a)[0]).collect::<Vec<_>>(),
        (15..45).map(HDPathComponent::securifying_base_index).collect::<Vec<_>>()
    );
}

#[test]
fn securify_when_cache_is_half_full_multiple_factor_sources() {
    let (mut os, bdfs) = Wallet::with_bdfs();
    let ledger = HDFactorSource::new(FactorSourceIDFromHash::new(FactorSourceKind::Ledger, 1));
    let arculus = HDFactorSource::new(FactorSourceIDFromHash::new(FactorSourceKind::Arculus, 2));
    let yubikey = HDFactorSource::new(FactorSourceIDFromHash::new(FactorSourceKind::Yubikey, 3));
    os.add_factor_source(ledger);
    os.add_factor_source(arculus);
    os.add_factor_source(yubikey);
    assert_eq!(os.profile.factor_sources, vec![bdfs, ledger, arculus, yubikey]);
    let n = CACHE_FILLING_QUANTITY / 2;
    for i in 0..3 * n {
        let _ = os.new_mainnet_account_with_bdfs(&format!("Acco: {}", i));
    }
    let shield_0 = MatrixOfFactorSources::new(vec![bdfs, ledger, arculus], 2, vec![]);
    let all_accounts = os.profile.accounts.clone();
    let first_half = all_accounts[0..n].to_vec();
    let second_half = all_accounts[n..3 * n].to_vec();
    assert_eq!(first_half.len() + second_half.len(), 3 * n);

    let (first, stats) = os.securify(first_half, shield_0.clone());
    assert!(!stats.derived_any_new_instance_for_any_factor_source(), "should have used cache");
    assert_eq!(
        first.iter().map(primary_role_indices).collect::<Vec<_>>(),
        (0..15).map(|i| vec![HDPathComponent::securifying_base_index(i); 3]).collect::<Vec<_>>()
    );

    let (second, stats) = os.securify(second_half, shield_0);
    assert!(stats.derived_any_new_instance_for_any_factor_source(), "should have derived more");
    assert!(stats.found_any_instances_in_cache_for_any_factor_source(), "should have found some in cache");
    assert_eq!(
        second.iter().map(primary_role_indices).collect::<Vec<_>>(),
        (15..45).map(|i| vec![HDPathComponent::securifying_base_index(i); 3]).collect::<Vec<_>>()
    );
}

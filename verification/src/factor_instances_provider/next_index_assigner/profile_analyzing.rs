use vstd::prelude::*;
use crate::factor_instances_provider::agnostic_paths::{spec_preset_of, DerivationPreset, IndexAgnosticPath};
use crate::types::derivation::{BIP32_SECURIFIED_HALF, CAP26EntityKind, CAP26KeyKind, DerivationPath, HDPathComponent, KeySpace};
use crate::types::entities::{account_entries, facets_on, persona_entries, EntityFacet, Profile};
use crate::types::error::CommonError;
use crate::types::keys::{FactorSourceIDFromHash, HierarchicalDeterministicFactorInstance};
use crate::types::network::NetworkID;

verus! {

/// The larger of two indices by their position in the index space, the
/// first on a tie.
pub open spec fn larger_index(a: HDPathComponent, b: HDPathComponent) -> HDPathComponent {
    if a.spec_value() >= b.spec_value() {
        a
    } else {
        b
    }
}

/// The larger of two optional indices; none is smaller than any index.
pub open spec fn larger_opt(a: Option<HDPathComponent>, b: Option<HDPathComponent>) -> Option<
    HDPathComponent,
> {
    match (a, b) {
        (None, _) => b,
        (_, None) => a,
        (Some(x), Some(y)) => Some(larger_index(x, y)),
    }
}

/// The largest derivation entity index among the instances of `s` of factor
/// source `fsid`, if there is one.
pub open spec fn max_index_of_factor(
    s: Seq<HierarchicalDeterministicFactorInstance>,
    fsid: FactorSourceIDFromHash,
) -> Option<HDPathComponent>
    decreases s.len(),
{
    if s.len() == 0 {
        None
    } else {
        let rest = max_index_of_factor(s.drop_last(), fsid);
        let x = s.last();
        if x.factor_source_id == fsid {
            larger_opt(rest, Some(x.spec_path().index))
        } else {
            rest
        }
    }
}

/// The largest index of `fsid` in `s` is the index of one of its instances
/// of `fsid`.
pub proof fn lemma_max_index_is_some_index(s: Seq<HierarchicalDeterministicFactorInstance>, fsid: FactorSourceIDFromHash)
    ensures
        max_index_of_factor(s, fsid) matches Some(c) ==> exists|i: int| 0 <= i < s.len() && (#[trigger] s[i]).factor_source_id == fsid
            && s[i].spec_path().index == c,
    decreases s.len(),
{
    if s.len() > 0 {
        lemma_max_index_is_some_index(s.drop_last(), fsid);
        if let Some(c) = max_index_of_factor(s, fsid) {
            let rest = max_index_of_factor(s.drop_last(), fsid);
            if s.last().factor_source_id == fsid && c == s.last().spec_path().index {
                assert(s[s.len() - 1] == s.last());
            } else {
                let i = choose|i: int| 0 <= i < s.drop_last().len() && (#[trigger] s.drop_last()[i]).factor_source_id == fsid
                    && s.drop_last()[i].spec_path().index == c;
                assert(s[i] == s.drop_last()[i]);
            }
        }
    }
}

/// `p` is a transaction signing path of `entity_kind` in `key_space` on
/// `network_id`.
pub open spec fn path_matches(
    p: DerivationPath,
    network_id: NetworkID,
    entity_kind: CAP26EntityKind,
    key_space: KeySpace,
) -> bool {
    &&& p.network_id == network_id
    &&& p.key_kind == CAP26KeyKind::TransactionSigning
    &&& p.entity_kind == entity_kind
    &&& p.index.spec_key_space() == key_space
}

/// Every instance of `s` of factor source `fsid` has a matching path.
pub open spec fn all_match(
    s: Seq<HierarchicalDeterministicFactorInstance>,
    fsid: FactorSourceIDFromHash,
    network_id: NetworkID,
    entity_kind: CAP26EntityKind,
    key_space: KeySpace,
) -> bool {
    forall|i: int|
        0 <= i < s.len() && (#[trigger] s[i]).factor_source_id == fsid ==> path_matches(
            s[i].spec_path(),
            network_id,
            entity_kind,
            key_space,
        )
}

/// `r` is what comes after the largest index `m`: nothing when there is no
/// largest index, else the next index in the same key space, or
/// `IndexOverflow` when that leaves the key space.
pub open spec fn is_next_after(m: Option<HDPathComponent>, r: Result<Option<HDPathComponent>, CommonError>) -> bool {
    match m {
        None => r == Ok::<Option<HDPathComponent>, CommonError>(None),
        Some(c) => if c.spec_base_index() + 1 < BIP32_SECURIFIED_HALF {
            r matches Ok(Some(n)) && n.spec_key_space() == c.spec_key_space() && n.spec_base_index()
                == c.spec_base_index() + 1
        } else {
            r == Err::<Option<HDPathComponent>, CommonError>(CommonError::IndexOverflow)
        },
    }
}

/// The largest index among `s` of factor source `fsid`; every such instance
/// must have a matching path.
fn max_matching(
    s: &Vec<HierarchicalDeterministicFactorInstance>,
    fsid: FactorSourceIDFromHash,
    network_id: NetworkID,
    entity_kind: CAP26EntityKind,
    key_space: KeySpace,
) -> (m: Option<HDPathComponent>)
    requires
        all_match(s@, fsid, network_id, entity_kind, key_space),
    ensures
        m == max_index_of_factor(s@, fsid),
{
    let mut m: Option<HDPathComponent> = None;
    let mut i: usize = 0;
    while i < s.len()
        invariant
            i <= s.len(),
            m == max_index_of_factor(s@.take(i as int), fsid),
        decreases s.len() - i,
    {
        proof {
            assert(s@.take(i + 1).drop_last() =~= s@.take(i as int));
        }
        let f = s[i];
        if f.factor_source_id == fsid {
            let index = f.derivation_entity_index();
            m = match m {
                None => Some(index),
                Some(prev) => Some(HDPathComponent::max_of(prev, index)),
            };
        }
        i = i + 1;
    }
    assert(s@.take(i as int) =~= s@);
    m
}

/// The next index after `m`, as `is_next_after` describes.
pub fn next_after(m: Option<HDPathComponent>) -> (r: Result<Option<HDPathComponent>, CommonError>)
    ensures
        is_next_after(m, r),
{
    match m {
        None => Ok(None),
        Some(c) => match c.add_one() {
            Ok(n) => Ok(Some(n)),
            Err(e) => Err(e),
        },
    }
}

/// The instances of `facet` of the entities of `entity_kind` in `profile` on
/// `network_id`; none without a profile.
pub open spec fn profile_instances(
    profile: Option<Profile>,
    entity_kind: CAP26EntityKind,
    facet: EntityFacet,
    network_id: NetworkID,
) -> Seq<HierarchicalDeterministicFactorInstance> {
    match profile {
        None => Seq::empty(),
        Some(p) => match entity_kind {
            CAP26EntityKind::Account => facets_on(account_entries(p.accounts@), facet, network_id),
            CAP26EntityKind::Identity => facets_on(persona_entries(p.personas@), facet, network_id),
        },
    }
}

/// Every instance of `fsid` that the analysis of `preset` would read in
/// `profile` on `network_id` has the path `preset` calls for.
pub open spec fn profile_analyzable(
    profile: Option<Profile>,
    network_id: NetworkID,
    preset: DerivationPreset,
    fsid: FactorSourceIDFromHash,
) -> bool {
    match preset {
        DerivationPreset::AccountVeci => all_match(
            profile_instances(profile, CAP26EntityKind::Account, EntityFacet::UnsecurifiedVeci, network_id),
            fsid, network_id, CAP26EntityKind::Account, KeySpace::Unsecurified,
        ) && all_match(
            profile_instances(profile, CAP26EntityKind::Account, EntityFacet::SecurifiedVeci, network_id),
            fsid, network_id, CAP26EntityKind::Account, KeySpace::Unsecurified,
        ),
        DerivationPreset::IdentityVeci => all_match(
            profile_instances(profile, CAP26EntityKind::Identity, EntityFacet::UnsecurifiedVeci, network_id),
            fsid, network_id, CAP26EntityKind::Identity, KeySpace::Unsecurified,
        ) && all_match(
            profile_instances(profile, CAP26EntityKind::Identity, EntityFacet::SecurifiedVeci, network_id),
            fsid, network_id, CAP26EntityKind::Identity, KeySpace::Unsecurified,
        ),
        DerivationPreset::AccountMfa => all_match(
            profile_instances(profile, CAP26EntityKind::Account, EntityFacet::SecurifiedMatrix, network_id),
            fsid, network_id, CAP26EntityKind::Account, KeySpace::Securified,
        ),
        DerivationPreset::IdentityMfa => all_match(
            profile_instances(profile, CAP26EntityKind::Identity, EntityFacet::SecurifiedMatrix, network_id),
            fsid, network_id, CAP26EntityKind::Identity, KeySpace::Securified,
        ),
    }
}

/// An analyser of the entities of a profile on one network, reading out the
/// largest derivation entity index that a factor source has been used at.
pub struct NextDerivationEntityIndexProfileAnalyzingAssigner {
    network_id: NetworkID,
    unsecurified_accounts_on_network: Vec<HierarchicalDeterministicFactorInstance>,
    securified_accounts_vecis: Vec<HierarchicalDeterministicFactorInstance>,
    securified_accounts_matrices: Vec<HierarchicalDeterministicFactorInstance>,
    unsecurified_identities_on_network: Vec<HierarchicalDeterministicFactorInstance>,
    securified_identities_vecis: Vec<HierarchicalDeterministicFactorInstance>,
    securified_identities_matrices: Vec<HierarchicalDeterministicFactorInstance>,
}

impl NextDerivationEntityIndexProfileAnalyzingAssigner {
    pub closed spec fn spec_network_id(&self) -> NetworkID {
        self.network_id
    }

    /// The instances of `facet` of the entities of `entity_kind` analysed.
    pub closed spec fn spec_instances(&self, entity_kind: CAP26EntityKind, facet: EntityFacet) -> Seq<
        HierarchicalDeterministicFactorInstance,
    > {
        match (entity_kind, facet) {
            (CAP26EntityKind::Account, EntityFacet::UnsecurifiedVeci) => self.unsecurified_accounts_on_network@,
            (CAP26EntityKind::Account, EntityFacet::SecurifiedVeci) => self.securified_accounts_vecis@,
            (CAP26EntityKind::Account, EntityFacet::SecurifiedMatrix) => self.securified_accounts_matrices@,
            (CAP26EntityKind::Identity, EntityFacet::UnsecurifiedVeci) => self.unsecurified_identities_on_network@,
            (CAP26EntityKind::Identity, EntityFacet::SecurifiedVeci) => self.securified_identities_vecis@,
            (CAP26EntityKind::Identity, EntityFacet::SecurifiedMatrix) => self.securified_identities_matrices@,
        }
    }

    /// The largest index `fsid` has been used at for `preset`: for a veci
    /// preset the larger of the largest among unsecurified entities and
    /// among the creating instances of securified ones; for an MFA preset the
    /// largest among the matrices of securified entities.
    pub open spec fn spec_max_for(&self, preset: DerivationPreset, fsid: FactorSourceIDFromHash) -> Option<
        HDPathComponent,
    > {
        match preset {
            DerivationPreset::AccountVeci => larger_opt(
                max_index_of_factor(self.spec_instances(CAP26EntityKind::Account, EntityFacet::UnsecurifiedVeci), fsid),
                max_index_of_factor(self.spec_instances(CAP26EntityKind::Account, EntityFacet::SecurifiedVeci), fsid),
            ),
            DerivationPreset::IdentityVeci => larger_opt(
                max_index_of_factor(self.spec_instances(CAP26EntityKind::Identity, EntityFacet::UnsecurifiedVeci), fsid),
                max_index_of_factor(self.spec_instances(CAP26EntityKind::Identity, EntityFacet::SecurifiedVeci), fsid),
            ),
            DerivationPreset::AccountMfa => max_index_of_factor(
                self.spec_instances(CAP26EntityKind::Account, EntityFacet::SecurifiedMatrix),
                fsid,
            ),
            DerivationPreset::IdentityMfa => max_index_of_factor(
                self.spec_instances(CAP26EntityKind::Identity, EntityFacet::SecurifiedMatrix),
                fsid,
            ),
        }
    }

    /// Every instance of `fsid` that the analysis of `preset` reads has the
    /// path that `preset` calls for on the analysed network.
    pub open spec fn spec_analyzable(&self, preset: DerivationPreset, fsid: FactorSourceIDFromHash) -> bool {
        let n = self.spec_network_id();
        match preset {
            DerivationPreset::AccountVeci => all_match(
                self.spec_instances(CAP26EntityKind::Account, EntityFacet::UnsecurifiedVeci),
                fsid, n, CAP26EntityKind::Account, KeySpace::Unsecurified,
            ) && all_match(
                self.spec_instances(CAP26EntityKind::Account, EntityFacet::SecurifiedVeci),
                fsid, n, CAP26EntityKind::Account, KeySpace::Unsecurified,
            ),
            DerivationPreset::IdentityVeci => all_match(
                self.spec_instances(CAP26EntityKind::Identity, EntityFacet::UnsecurifiedVeci),
                fsid, n, CAP26EntityKind::Identity, KeySpace::Unsecurified,
            ) && all_match(
                self.spec_instances(CAP26EntityKind::Identity, EntityFacet::SecurifiedVeci),
                fsid, n, CAP26EntityKind::Identity, KeySpace::Unsecurified,
            ),
            DerivationPreset::AccountMfa => all_match(
                self.spec_instances(CAP26EntityKind::Account, EntityFacet::SecurifiedMatrix),
                fsid, n, CAP26EntityKind::Account, KeySpace::Securified,
            ),
            DerivationPreset::IdentityMfa => all_match(
                self.spec_instances(CAP26EntityKind::Identity, EntityFacet::SecurifiedMatrix),
                fsid, n, CAP26EntityKind::Identity, KeySpace::Securified,
            ),
        }
    }

    /// The analyser of the entities of `profile` on `network_id`; without a
    /// profile there is nothing to analyse.
    pub fn new(network_id: NetworkID, profile: Option<Profile>) -> (s: Self)
        ensures
            s.spec_network_id() == network_id,
            forall|k: CAP26EntityKind, f: EntityFacet| #[trigger] s.spec_instances(k, f)
                == profile_instances(profile, k, f, network_id),
    {
        match &profile {
            Some(p) => Self {
                network_id,
                unsecurified_accounts_on_network: p.account_instances_on_network(EntityFacet::UnsecurifiedVeci, network_id),
                securified_accounts_vecis: p.account_instances_on_network(EntityFacet::SecurifiedVeci, network_id),
                securified_accounts_matrices: p.account_instances_on_network(EntityFacet::SecurifiedMatrix, network_id),
                unsecurified_identities_on_network: p.persona_instances_on_network(EntityFacet::UnsecurifiedVeci, network_id),
                securified_identities_vecis: p.persona_instances_on_network(EntityFacet::SecurifiedVeci, network_id),
                securified_identities_matrices: p.persona_instances_on_network(EntityFacet::SecurifiedMatrix, network_id),
            },
            None => {
                let s = Self {
                    network_id,
                    unsecurified_accounts_on_network: Vec::new(),
                    securified_accounts_vecis: Vec::new(),
                    securified_accounts_matrices: Vec::new(),
                    unsecurified_identities_on_network: Vec::new(),
                    securified_identities_vecis: Vec::new(),
                    securified_identities_matrices: Vec::new(),
                };
                assert forall|k: CAP26EntityKind, f: EntityFacet| #[trigger] s.spec_instances(k, f)
                    == profile_instances(profile, k, f, network_id) by {
                    assert(s.spec_instances(k, f) =~= Seq::empty());
                }
                s
            },
        }
    }

    fn max_entity_veci(
        &self,
        factor_source_id: FactorSourceIDFromHash,
        entity_kind: CAP26EntityKind,
    ) -> (m: Option<HDPathComponent>)
        requires
            all_match(self.spec_instances(entity_kind, EntityFacet::UnsecurifiedVeci), factor_source_id,
                self.spec_network_id(), entity_kind, KeySpace::Unsecurified),
            all_match(self.spec_instances(entity_kind, EntityFacet::SecurifiedVeci), factor_source_id,
                self.spec_network_id(), entity_kind, KeySpace::Unsecurified),
        ensures
            m == larger_opt(
                max_index_of_factor(self.spec_instances(entity_kind, EntityFacet::UnsecurifiedVeci), factor_source_id),
                max_index_of_factor(self.spec_instances(entity_kind, EntityFacet::SecurifiedVeci), factor_source_id),
            ),
    {
        let (unsecurified, securified) = match entity_kind {
            CAP26EntityKind::Account => (&self.unsecurified_accounts_on_network, &self.securified_accounts_vecis),
            CAP26EntityKind::Identity => (&self.unsecurified_identities_on_network, &self.securified_identities_vecis),
        };
        let of_unsecurified = max_matching(unsecurified, factor_source_id, self.network_id, entity_kind, KeySpace::Unsecurified);
        let of_securified = max_matching(securified, factor_source_id, self.network_id, entity_kind, KeySpace::Unsecurified);
        match (of_unsecurified, of_securified) {
            (None, _) => of_securified,
            (_, None) => of_unsecurified,
            (Some(a), Some(b)) => Some(HDPathComponent::max_of(a, b)),
        }
    }

    /// The largest index of `factor_source_id` among unsecurified accounts and
    /// the creating instances of securified accounts.
    fn max_account_veci(&self, factor_source_id: FactorSourceIDFromHash) -> (m: Option<HDPathComponent>)
        requires
            self.spec_analyzable(DerivationPreset::AccountVeci, factor_source_id),
        ensures
            m == self.spec_max_for(DerivationPreset::AccountVeci, factor_source_id),
    {
        self.max_entity_veci(factor_source_id, CAP26EntityKind::Account)
    }

    /// The largest index of `factor_source_id` among unsecurified personas
    /// and the creating instances of securified personas.
    fn max_identity_veci(&self, factor_source_id: FactorSourceIDFromHash) -> (m: Option<HDPathComponent>)
        requires
            self.spec_analyzable(DerivationPreset::IdentityVeci, factor_source_id),
        ensures
            m == self.spec_max_for(DerivationPreset::IdentityVeci, factor_source_id),
    {
        self.max_entity_veci(factor_source_id, CAP26EntityKind::Identity)
    }

    /// The largest index of `factor_source_id` in any role of the matrix of
    /// any securified account.
    fn max_account_mfa(&self, factor_source_id: FactorSourceIDFromHash) -> (m: Option<HDPathComponent>)
        requires
            self.spec_analyzable(DerivationPreset::AccountMfa, factor_source_id),
        ensures
            m == self.spec_max_for(DerivationPreset::AccountMfa, factor_source_id),
    {
        max_matching(&self.securified_accounts_matrices, factor_source_id, self.network_id,
            CAP26EntityKind::Account, KeySpace::Securified)
    }

    /// The largest index of `factor_source_id` in any role of the matrix of
    /// any securified persona.
    fn max_identity_mfa(&self, factor_source_id: FactorSourceIDFromHash) -> (m: Option<HDPathComponent>)
        requires
            self.spec_analyzable(DerivationPreset::IdentityMfa, factor_source_id),
        ensures
            m == self.spec_max_for(DerivationPreset::IdentityMfa, factor_source_id),
    {
        max_matching(&self.securified_identities_matrices, factor_source_id, self.network_id,
            CAP26EntityKind::Identity, KeySpace::Securified)
    }

    /// The next index for `factor_source_id` on `agnostic_path`: one after
    /// the largest used, or none if the factor source was not used for it.
    /// A path on another network gives `NetworkDiscrepancy`, a path of no
    /// preset `NonStandardDerivationPath`, and a largest index at the end of
    /// its key space `IndexOverflow`.
    pub fn next(&self, factor_source_id: FactorSourceIDFromHash, agnostic_path: IndexAgnosticPath) -> (r:
        Result<Option<HDPathComponent>, CommonError>)
        requires
            agnostic_path.network_id == self.spec_network_id() ==> match spec_preset_of(agnostic_path) {
                Some(p) => self.spec_analyzable(p, factor_source_id),
                None => true,
            },
        ensures
            agnostic_path.network_id != self.spec_network_id() ==> r == Err::<Option<HDPathComponent>, CommonError>(
                CommonError::NetworkDiscrepancy,
            ),
            agnostic_path.network_id == self.spec_network_id() ==> match spec_preset_of(agnostic_path) {
                None => r == Err::<Option<HDPathComponent>, CommonError>(CommonError::NonStandardDerivationPath),
                Some(p) => is_next_after(self.spec_max_for(p, factor_source_id), r),
            },
    {
        if agnostic_path.network_id != self.network_id {
            return Err(CommonError::NetworkDiscrepancy);
        }
        let derivation_preset = match DerivationPreset::try_from(agnostic_path) {
            Ok(p) => p,
            Err(e) => return Err(e),
        };
        let max = match derivation_preset {
            DerivationPreset::AccountVeci => self.max_account_veci(factor_source_id),
            DerivationPreset::AccountMfa => self.max_account_mfa(factor_source_id),
            DerivationPreset::IdentityVeci => self.max_identity_veci(factor_source_id),
            DerivationPreset::IdentityMfa => self.max_identity_mfa(factor_source_id),
        };
        next_after(max)
    }
}

/// Whether every instance of `s` of factor source `fsid` has a matching path.
fn check_all_match(
    s: &Vec<HierarchicalDeterministicFactorInstance>,
    fsid: FactorSourceIDFromHash,
    network_id: NetworkID,
    entity_kind: CAP26EntityKind,
    key_space: KeySpace,
) -> (b: bool)
    ensures
        b == all_match(s@, fsid, network_id, entity_kind, key_space),
{
    let mut i: usize = 0;
    while i < s.len()
        invariant
            i <= s@.len(),
            forall|j: int| 0 <= j < i && (#[trigger] s@[j]).factor_source_id == fsid ==> path_matches(
                s@[j].spec_path(),
                network_id,
                entity_kind,
                key_space,
            ),
        decreases s@.len() - i,
    {
        let f = s[i];
        if f.factor_source_id == fsid {
            let p = f.derivation_path();
            if !(p.network_id == network_id && p.key_kind == CAP26KeyKind::TransactionSigning && p.entity_kind == entity_kind
                && p.index.key_space() == key_space) {
                assert(!path_matches(s@[i as int].spec_path(), network_id, entity_kind, key_space));
                return false;
            }
        }
        i = i + 1;
    }
    true
}

/// Whether the analysis of `preset` for `fsid` in `profile` on `network_id`
/// reads only instances with the path `preset` calls for; the analysis
/// panics on any other.
pub fn is_profile_analyzable(
    profile: &Option<Profile>,
    network_id: NetworkID,
    preset: DerivationPreset,
    fsid: FactorSourceIDFromHash,
) -> (b: bool)
    ensures
        b == profile_analyzable(*profile, network_id, preset, fsid),
{
    let p = match profile {
        Some(p) => p,
        None => {
            let e: Vec<HierarchicalDeterministicFactorInstance> = Vec::new();
            assert(e@ =~= Seq::<HierarchicalDeterministicFactorInstance>::empty());
            return true;
        },
    };
    match preset {
        DerivationPreset::AccountVeci => check_all_match(
            &p.account_instances_on_network(EntityFacet::UnsecurifiedVeci, network_id),
            fsid, network_id, CAP26EntityKind::Account, KeySpace::Unsecurified,
        ) && check_all_match(
            &p.account_instances_on_network(EntityFacet::SecurifiedVeci, network_id),
            fsid, network_id, CAP26EntityKind::Account, KeySpace::Unsecurified,
        ),
        DerivationPreset::IdentityVeci => check_all_match(
            &p.persona_instances_on_network(EntityFacet::UnsecurifiedVeci, network_id),
            fsid, network_id, CAP26EntityKind::Identity, KeySpace::Unsecurified,
        ) && check_all_match(
            &p.persona_instances_on_network(EntityFacet::SecurifiedVeci, network_id),
            fsid, network_id, CAP26EntityKind::Identity, KeySpace::Unsecurified,
        ),
        DerivationPreset::AccountMfa => check_all_match(
            &p.account_instances_on_network(EntityFacet::SecurifiedMatrix, network_id),
            fsid, network_id, CAP26EntityKind::Account, KeySpace::Securified,
        ),
        DerivationPreset::IdentityMfa => check_all_match(
            &p.persona_instances_on_network(EntityFacet::SecurifiedMatrix, network_id),
            fsid, network_id, CAP26EntityKind::Identity, KeySpace::Securified,
        ),
    }
}

/// The profile facets of entities of kind `k` whose instances the analysis
/// of preset `p` counts as used: for a veci preset, the instances of
/// unsecurified entities and the instances that created securified ones; for
/// an MFA preset, the instances in the matrices of securified entities.
pub open spec fn preset_reads(p: DerivationPreset, k: CAP26EntityKind, facet: EntityFacet) -> bool {
    match p {
        DerivationPreset::AccountVeci => k == CAP26EntityKind::Account && (facet == EntityFacet::UnsecurifiedVeci || facet
            == EntityFacet::SecurifiedVeci),
        DerivationPreset::IdentityVeci => k == CAP26EntityKind::Identity && (facet == EntityFacet::UnsecurifiedVeci || facet
            == EntityFacet::SecurifiedVeci),
        DerivationPreset::AccountMfa => k == CAP26EntityKind::Account && facet == EntityFacet::SecurifiedMatrix,
        DerivationPreset::IdentityMfa => k == CAP26EntityKind::Identity && facet == EntityFacet::SecurifiedMatrix,
    }
}

/// Every instance of `fsid` in `s` is at most the largest index found.
pub proof fn lemma_max_index_bounds(s: Seq<HierarchicalDeterministicFactorInstance>, fsid: FactorSourceIDFromHash)
    ensures
        forall|x: HierarchicalDeterministicFactorInstance| #[trigger] s.contains(x) && x.factor_source_id == fsid ==> (max_index_of_factor(
            s,
            fsid,
        ) matches Some(c) && x.spec_path().index.spec_value() <= c.spec_value()),
    decreases s.len(),
{
    if s.len() > 0 {
        lemma_max_index_bounds(s.drop_last(), fsid);
        assert forall|x: HierarchicalDeterministicFactorInstance| #[trigger] s.contains(x) && x.factor_source_id == fsid implies (max_index_of_factor(
            s,
            fsid,
        ) matches Some(c) && x.spec_path().index.spec_value() <= c.spec_value()) by {
            let i = choose|i: int| 0 <= i < s.len() && s[i] == x;
            if i < s.len() - 1 {
                assert(s.drop_last()[i] == x);
                assert(s.drop_last().contains(x));
            }
        }
    }
}

/// Of two sequences whose instances of `fsid` are all in key space `ks`, the
/// larger of their largest indices is in `ks` and at least every instance of
/// `fsid` in either.
proof fn lemma_pair_max(
    a: Seq<HierarchicalDeterministicFactorInstance>,
    b: Seq<HierarchicalDeterministicFactorInstance>,
    fsid: FactorSourceIDFromHash,
    network_id: NetworkID,
    kind: CAP26EntityKind,
    ks: KeySpace,
    x: HierarchicalDeterministicFactorInstance,
)
    requires
        all_match(a, fsid, network_id, kind, ks),
        all_match(b, fsid, network_id, kind, ks),
        a.contains(x) || b.contains(x),
        x.factor_source_id == fsid,
    ensures
        larger_opt(max_index_of_factor(a, fsid), max_index_of_factor(b, fsid)) matches Some(c) && c.spec_key_space() == ks
            && x.spec_path().index.spec_key_space() == ks && c.spec_base_index() >= x.spec_path().index.spec_base_index(),
{
    lemma_max_index_bounds(a, fsid);
    lemma_max_index_bounds(b, fsid);
    lemma_max_index_is_some_index(a, fsid);
    lemma_max_index_is_some_index(b, fsid);
    if a.contains(x) {
        let i = choose|i: int| 0 <= i < a.len() && a[i] == x;
        assert(path_matches(a[i].spec_path(), network_id, kind, ks));
    } else {
        let i = choose|i: int| 0 <= i < b.len() && b[i] == x;
        assert(path_matches(b[i].spec_path(), network_id, kind, ks));
    }
    if let Some(c) = max_index_of_factor(a, fsid) {
        let i = choose|i: int| 0 <= i < a.len() && (#[trigger] a[i]).factor_source_id == fsid && a[i].spec_path().index == c;
        assert(path_matches(a[i].spec_path(), network_id, kind, ks));
    }
    if let Some(c) = max_index_of_factor(b, fsid) {
        let i = choose|i: int| 0 <= i < b.len() && (#[trigger] b[i]).factor_source_id == fsid && b[i].spec_path().index == c;
        assert(path_matches(b[i].spec_path(), network_id, kind, ks));
    }
}

/// The next index for a preset never reuses an index the profile counts as
/// used by that factor source for it: for every instance `x` of `fsid` that
/// preset `p` reads (the instances that created securified entities
/// included for a veci preset), the next index `r` comes after `x` in its key
/// space, unless the key space ends there.
pub proof fn law_next_comes_after_every_used_index(
    s: NextDerivationEntityIndexProfileAnalyzingAssigner,
    p: DerivationPreset,
    fsid: FactorSourceIDFromHash,
    k: CAP26EntityKind,
    facet: EntityFacet,
    x: HierarchicalDeterministicFactorInstance,
    r: Result<Option<HDPathComponent>, CommonError>,
)
    requires
        s.spec_analyzable(p, fsid),
        preset_reads(p, k, facet),
        s.spec_instances(k, facet).contains(x),
        x.factor_source_id == fsid,
        is_next_after(s.spec_max_for(p, fsid), r),
    ensures
        r == Err::<Option<HDPathComponent>, CommonError>(CommonError::IndexOverflow) || (r matches Ok(Some(n))
            && n.spec_key_space() == x.spec_path().index.spec_key_space() && n.spec_base_index()
            > x.spec_path().index.spec_base_index()),
{
    let n = s.spec_network_id();
    let e = Seq::<HierarchicalDeterministicFactorInstance>::empty();
    match p {
        DerivationPreset::AccountVeci => {
            lemma_pair_max(
                s.spec_instances(CAP26EntityKind::Account, EntityFacet::UnsecurifiedVeci),
                s.spec_instances(CAP26EntityKind::Account, EntityFacet::SecurifiedVeci),
                fsid, n, CAP26EntityKind::Account, KeySpace::Unsecurified, x,
            );
        },
        DerivationPreset::IdentityVeci => {
            lemma_pair_max(
                s.spec_instances(CAP26EntityKind::Identity, EntityFacet::UnsecurifiedVeci),
                s.spec_instances(CAP26EntityKind::Identity, EntityFacet::SecurifiedVeci),
                fsid, n, CAP26EntityKind::Identity, KeySpace::Unsecurified, x,
            );
        },
        DerivationPreset::AccountMfa => {
            lemma_pair_max(
                s.spec_instances(CAP26EntityKind::Account, EntityFacet::SecurifiedMatrix),
                e, fsid, n, CAP26EntityKind::Account, KeySpace::Securified, x,
            );
            assert(max_index_of_factor(e, fsid) is None);
        },
        DerivationPreset::IdentityMfa => {
            lemma_pair_max(
                s.spec_instances(CAP26EntityKind::Identity, EntityFacet::SecurifiedMatrix),
                e, fsid, n, CAP26EntityKind::Identity, KeySpace::Securified, x,
            );
            assert(max_index_of_factor(e, fsid) is None);
        },
    }
}

/// Every instance of `fsid` that preset `p` reads in `profile` on
/// `network_id` lies in the preset's key space and at or below the largest
/// index `larger_opt` finds over the facets of `p`.
pub proof fn lemma_profile_pair_max(
    profile: Option<Profile>,
    network_id: NetworkID,
    p: DerivationPreset,
    fsid: FactorSourceIDFromHash,
    k: CAP26EntityKind,
    facet: EntityFacet,
    x: HierarchicalDeterministicFactorInstance,
)
    requires
        profile_analyzable(profile, network_id, p, fsid),
        preset_reads(p, k, facet),
        profile_instances(profile, k, facet, network_id).contains(x),
        x.factor_source_id == fsid,
    ensures
        match p {
            DerivationPreset::AccountVeci => larger_opt(
                max_index_of_factor(profile_instances(profile, CAP26EntityKind::Account, EntityFacet::UnsecurifiedVeci, network_id), fsid),
                max_index_of_factor(profile_instances(profile, CAP26EntityKind::Account, EntityFacet::SecurifiedVeci, network_id), fsid),
            ) matches Some(c) && c.spec_value() >= x.spec_path().index.spec_value(),
            DerivationPreset::IdentityVeci => larger_opt(
                max_index_of_factor(profile_instances(profile, CAP26EntityKind::Identity, EntityFacet::UnsecurifiedVeci, network_id), fsid),
                max_index_of_factor(profile_instances(profile, CAP26EntityKind::Identity, EntityFacet::SecurifiedVeci, network_id), fsid),
            ) matches Some(c) && c.spec_value() >= x.spec_path().index.spec_value(),
            DerivationPreset::AccountMfa => max_index_of_factor(
                profile_instances(profile, CAP26EntityKind::Account, EntityFacet::SecurifiedMatrix, network_id),
                fsid,
            ) matches Some(c) && c.spec_value() >= x.spec_path().index.spec_value(),
            DerivationPreset::IdentityMfa => max_index_of_factor(
                profile_instances(profile, CAP26EntityKind::Identity, EntityFacet::SecurifiedMatrix, network_id),
                fsid,
            ) matches Some(c) && c.spec_value() >= x.spec_path().index.spec_value(),
        },
{
    let e = Seq::<HierarchicalDeterministicFactorInstance>::empty();
    match p {
        DerivationPreset::AccountVeci => {
            lemma_pair_max(
                profile_instances(profile, CAP26EntityKind::Account, EntityFacet::UnsecurifiedVeci, network_id),
                profile_instances(profile, CAP26EntityKind::Account, EntityFacet::SecurifiedVeci, network_id),
                fsid, network_id, CAP26EntityKind::Account, KeySpace::Unsecurified, x,
            );
        },
        DerivationPreset::IdentityVeci => {
            lemma_pair_max(
                profile_instances(profile, CAP26EntityKind::Identity, EntityFacet::UnsecurifiedVeci, network_id),
                profile_instances(profile, CAP26EntityKind::Identity, EntityFacet::SecurifiedVeci, network_id),
                fsid, network_id, CAP26EntityKind::Identity, KeySpace::Unsecurified, x,
            );
        },
        DerivationPreset::AccountMfa => {
            lemma_pair_max(
                profile_instances(profile, CAP26EntityKind::Account, EntityFacet::SecurifiedMatrix, network_id),
                e, fsid, network_id, CAP26EntityKind::Account, KeySpace::Securified, x,
            );
            assert(max_index_of_factor(e, fsid) is None);
        },
        DerivationPreset::IdentityMfa => {
            lemma_pair_max(
                profile_instances(profile, CAP26EntityKind::Identity, EntityFacet::SecurifiedMatrix, network_id),
                e, fsid, network_id, CAP26EntityKind::Identity, KeySpace::Securified, x,
            );
            assert(max_index_of_factor(e, fsid) is None);
        },
    }
}

} // verus!

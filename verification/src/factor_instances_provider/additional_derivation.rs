//! The derivation paths to derive when the pre-derived keys cache could not
//! satisfy a purpose: a cache's worth for every request that must be derived
//! more of, and a cache's worth for every request that would fill the cache
//! of a factor source of the purpose and is not saturated yet.
use vstd::prelude::*;
use crate::factor_instances_provider::agnostic_paths::CACHE_FILLING_QUANTITY;
use crate::factor_instances_provider::derive_more::{
    derive_more_request, fill_cache_requests, fill_cache_requests_for, purpose_factor_sources, range_path_seq, range_request,
    DerivationRequestWithRange, DeriveMore, FactorInstancesRequestPurpose,
};
use crate::factor_instances_provider::next_derivation_index_analyzer::{
    profile_max_for_request, start_index_value, NextIndexAssignerWithEphemeralLocalOffsets,
};
use crate::factor_instances_provider::mixed::lemma_append_new_concat;
use crate::pre_derived_keys_cache::pre_derived_keys_cache::{cached, PreDerivedKeysCache};
use crate::pre_derived_keys_cache::requests::{unquantified, QuantifiedUnindexDerivationRequest, UnquantifiedUnindexDerivationRequest};
use crate::types::appendable::OrderedSet;
use crate::types::derivation::{BIP32_SECURIFIED_HALF, DerivationPath};
use crate::types::entities::Profile;
use crate::types::factor_instances::append_new;
use crate::types::keys::{FactorSourceIDFromHash, HDFactorSource, HierarchicalDeterministicFactorInstance};
use crate::types::ordered_map::OrderedMap;

verus! {

/// The requests that fill the caches of the factor sources `fss`, in order.
pub open spec fn fill_candidates(fss: Seq<HDFactorSource>) -> Seq<QuantifiedUnindexDerivationRequest>
    decreases fss.len(),
{
    if fss.len() == 0 {
        Seq::empty()
    } else {
        fill_candidates(fss.drop_last()) + fill_cache_requests(fss.last().factor_source_id)
    }
}

/// Some request of `reqs` is for the request of `x`.
pub open spec fn matched_by(reqs: Seq<DeriveMore>, x: QuantifiedUnindexDerivationRequest) -> bool {
    exists|k: int| 0 <= k < reqs.len() && derive_more_request(#[trigger] reqs[k]) == unquantified(x)
}

/// The cache `v` holds at least as many instances for `x` as it asks for.
pub open spec fn saturated(
    v: Seq<(UnquantifiedUnindexDerivationRequest, Seq<HierarchicalDeterministicFactorInstance>)>,
    x: QuantifiedUnindexDerivationRequest,
) -> bool {
    cached(v, unquantified(x)) matches Some(s) && s.len() >= x.requested_quantity
}

/// The requests of `cands` that are neither saturated in `v` nor matched by
/// a request of `reqs`, in order.
pub open spec fn kept_fill(
    v: Seq<(UnquantifiedUnindexDerivationRequest, Seq<HierarchicalDeterministicFactorInstance>)>,
    reqs: Seq<DeriveMore>,
    cands: Seq<QuantifiedUnindexDerivationRequest>,
) -> Seq<QuantifiedUnindexDerivationRequest>
    decreases cands.len(),
{
    if cands.len() == 0 {
        Seq::empty()
    } else {
        let r = kept_fill(v, reqs, cands.drop_last());
        if !saturated(v, cands.last()) && !matched_by(reqs, cands.last()) {
            r.push(cands.last())
        } else {
            r
        }
    }
}

/// A cache's worth of the request `x`, from base index zero.
pub open spec fn fill_range(x: QuantifiedUnindexDerivationRequest) -> DerivationRequestWithRange {
    DerivationRequestWithRange {
        factor_source_id: x.factor_source_id,
        network_id: x.network_id,
        entity_kind: x.entity_kind,
        key_kind: x.key_kind,
        key_space: x.key_space,
        quantity: CACHE_FILLING_QUANTITY,
        start_base_index: 0,
    }
}

/// What to derive for `d`: a cache's worth, from its known start (`true`) or
/// from where the assigner says (`false`).
pub open spec fn req_item(d: DeriveMore) -> (DerivationRequestWithRange, bool) {
    match d {
        DeriveMore::WithKnownStartIndex { with_start_index: z, .. } => (
            DerivationRequestWithRange {
                factor_source_id: z.factor_source_id,
                network_id: z.network_id,
                entity_kind: z.entity_kind,
                key_kind: z.key_kind,
                key_space: z.key_space,
                quantity: CACHE_FILLING_QUANTITY,
                start_base_index: z.start_base_index,
            },
            true,
        ),
        DeriveMore::WithoutKnownLastIndex { request, .. } => (fill_range(request), false),
    }
}

/// What to derive: first the kept fill requests, each from where the
/// assigner says, then one item per derive-more request.
pub open spec fn items_of(fill: Seq<QuantifiedUnindexDerivationRequest>, reqs: Seq<DeriveMore>) -> Seq<(DerivationRequestWithRange, bool)> {
    fill.map_values(|x: QuantifiedUnindexDerivationRequest| (fill_range(x), false)) + reqs.map_values(|d: DeriveMore| req_item(d))
}

/// The offsets after one more index is assigned to `k`.
pub open spec fn bump(off: spec_fn(UnquantifiedUnindexDerivationRequest) -> usize, k: UnquantifiedUnindexDerivationRequest) -> spec_fn(
    UnquantifiedUnindexDerivationRequest,
) -> usize {
    |q: UnquantifiedUnindexDerivationRequest| if q == k { (off(q) + 1) as usize } else { off(q) }
}

/// The range `r` starting at `start`.
pub open spec fn with_start(r: DerivationRequestWithRange, start: int) -> DerivationRequestWithRange {
    DerivationRequestWithRange { start_base_index: start as u32, ..r }
}

/// The start the assigner gives `k` with offsets `off`.
pub open spec fn assigned_start(profile: Option<Profile>, off: spec_fn(UnquantifiedUnindexDerivationRequest) -> usize, k: UnquantifiedUnindexDerivationRequest) -> int {
    start_index_value(profile, k) + (off(k) as u32)
}

/// The ranges of `items` in order: a known range as it is, any other from
/// the start the assigner gives it, the assigner's offsets moving on as it
/// goes.
pub open spec fn ranges_of(
    profile: Option<Profile>,
    off: spec_fn(UnquantifiedUnindexDerivationRequest) -> usize,
    items: Seq<(DerivationRequestWithRange, bool)>,
) -> Seq<DerivationRequestWithRange>
    decreases items.len(),
{
    if items.len() == 0 {
        Seq::empty()
    } else {
        let r = items[0].0;
        if items[0].1 {
            seq![r] + ranges_of(profile, off, items.skip(1))
        } else {
            let k = range_request(r);
            seq![with_start(r, assigned_start(profile, off, k))] + ranges_of(profile, bump(off, k), items.skip(1))
        }
    }
}

/// The offsets once every range of `items` was made.
pub open spec fn final_offsets(
    off: spec_fn(UnquantifiedUnindexDerivationRequest) -> usize,
    items: Seq<(DerivationRequestWithRange, bool)>,
) -> spec_fn(UnquantifiedUnindexDerivationRequest) -> usize
    decreases items.len(),
{
    if items.len() == 0 {
        off
    } else if items[0].1 {
        final_offsets(off, items.skip(1))
    } else {
        final_offsets(bump(off, range_request(items[0].0)), items.skip(1))
    }
}

/// Every range of `items` can be made: the assigner can assign its start,
/// and all its indices lie in its key space.
pub open spec fn ranges_allowed(
    profile: Option<Profile>,
    off: spec_fn(UnquantifiedUnindexDerivationRequest) -> usize,
    items: Seq<(DerivationRequestWithRange, bool)>,
) -> bool
    decreases items.len(),
{
    if items.len() == 0 {
        true
    } else {
        let r = items[0].0;
        if items[0].1 {
            r.start_base_index + r.quantity <= BIP32_SECURIFIED_HALF && ranges_allowed(profile, off, items.skip(1))
        } else {
            let k = range_request(r);
            let s = assigned_start(profile, off, k);
            &&& off(k) < usize::MAX
            &&& s < BIP32_SECURIFIED_HALF
            &&& s + r.quantity <= BIP32_SECURIFIED_HALF
            &&& ranges_allowed(profile, bump(off, k), items.skip(1))
        }
    }
}

/// The paths of the ranges of `ranges` of factor source `f`, range after range.
pub open spec fn paths_for(ranges: Seq<DerivationRequestWithRange>, f: FactorSourceIDFromHash) -> Seq<DerivationPath>
    decreases ranges.len(),
{
    if ranges.len() == 0 {
        Seq::empty()
    } else {
        paths_for(ranges.drop_last(), f) + if ranges.last().factor_source_id == f {
            range_path_seq(ranges.last())
        } else {
            Seq::empty()
        }
    }
}

/// Some range of `ranges` is of factor source `f`.
pub open spec fn has_factor(ranges: Seq<DerivationRequestWithRange>, f: FactorSourceIDFromHash) -> bool {
    exists|i: int| 0 <= i < ranges.len() && (#[trigger] ranges[i]).factor_source_id == f
}

/// The fill requests kept for `purpose`: those of its factor sources that
/// the cache is not saturated for and no request of `reqs` is for.
pub open spec fn kept_fill_for(
    cache: Seq<(UnquantifiedUnindexDerivationRequest, Seq<HierarchicalDeterministicFactorInstance>)>,
    reqs: Seq<DeriveMore>,
    purpose: FactorInstancesRequestPurpose,
) -> Seq<QuantifiedUnindexDerivationRequest> {
    kept_fill(cache, reqs, fill_candidates(purpose_factor_sources(purpose)))
}

/// `r` holds, per factor source, the paths to derive for `reqs` under
/// `purpose` with the cache `cache`: the ranges of the requests to satisfy
/// first, then those filling the cache, each range from its known start or
/// from where an assigner reading `profile` with offsets `off` says; each
/// path once.
pub open spec fn additional_paths_fit(
    profile: Option<Profile>,
    off: spec_fn(UnquantifiedUnindexDerivationRequest) -> usize,
    cache: Seq<(UnquantifiedUnindexDerivationRequest, Seq<HierarchicalDeterministicFactorInstance>)>,
    reqs: Seq<DeriveMore>,
    purpose: FactorInstancesRequestPurpose,
    r: OrderedMap<FactorSourceIDFromHash, OrderedSet<DerivationPath>>,
) -> bool {
    let fill = kept_fill_for(cache, reqs, purpose);
    let ranges = ranges_of(profile, off, items_of(fill, reqs));
    let ordered = ranges.skip(fill.len() as int) + ranges.take(fill.len() as int);
    &&& forall|f: FactorSourceIDFromHash| #[trigger] r.spec_has(f) == has_factor(ordered, f)
    &&& forall|f: FactorSourceIDFromHash| #[trigger] r.spec_get(f) matches Some(s) ==> s@ == append_new(
        Seq::<DerivationPath>::empty(),
        paths_for(ordered, f),
    )
}

/// Whether a request of `reqs` is for the request of `x`.
fn is_matched(reqs: &Vec<DeriveMore>, x: &QuantifiedUnindexDerivationRequest) -> (b: bool)
    ensures
        b == matched_by(reqs@, *x),
{
    let k = x.unquantified();
    let mut i: usize = 0;
    while i < reqs.len()
        invariant
            i <= reqs@.len(),
            k == unquantified(*x),
            forall|j: int| 0 <= j < i ==> derive_more_request(#[trigger] reqs@[j]) != k,
        decreases reqs@.len() - i,
    {
        if reqs[i].unquantified() == k {
            return true;
        }
        i = i + 1;
    }
    false
}

/// The fill requests kept for `purpose`.
fn kept_fill_requests(
    requests_to_satisfy_request: &Vec<DeriveMore>,
    original_purpose: &FactorInstancesRequestPurpose,
    cache: &PreDerivedKeysCache,
) -> (v: Vec<QuantifiedUnindexDerivationRequest>)
    ensures
        v@ == kept_fill_for(cache@, requests_to_satisfy_request@, *original_purpose),
{
    let fss = original_purpose.factor_sources();
    let ghost reqs = requests_to_satisfy_request@;
    let mut v: Vec<QuantifiedUnindexDerivationRequest> = Vec::new();
    let mut i: usize = 0;
    while i < fss.len()
        invariant
            i <= fss@.len(),
            fss@ == purpose_factor_sources(*original_purpose),
            reqs == requests_to_satisfy_request@,
            v@ == kept_fill(cache@, reqs, fill_candidates(fss@.take(i as int))),
        decreases fss@.len() - i,
    {
        let cands = fill_cache_requests_for(fss[i].factor_source_id);
        let ghost before = fill_candidates(fss@.take(i as int));
        proof {
            assert(fss@.take(i + 1).drop_last() =~= fss@.take(i as int));
            assert(fss@.take(i + 1).last() == fss@[i as int]);
        }
        let mut j: usize = 0;
        while j < cands.len()
            invariant
                j <= cands@.len(),
                reqs == requests_to_satisfy_request@,
                v@ == kept_fill(cache@, reqs, before + cands@.take(j as int)),
            decreases cands@.len() - j,
        {
            let x = cands[j];
            proof {
                assert((before + cands@.take(j + 1)).drop_last() =~= before + cands@.take(j as int));
                assert((before + cands@.take(j + 1)).last() == x);
            }
            if !cache.is_saturated_for(&x) && !is_matched(requests_to_satisfy_request, &x) {
                v.push(x);
            }
            j = j + 1;
        }
        assert(cands@.take(cands@.len() as int) =~= cands@);
        i = i + 1;
    }
    assert(fss@.take(fss@.len() as int) =~= fss@);
    v
}

/// The range of `x` as a cache's worth from `start`.
fn fill_range_from(x: &QuantifiedUnindexDerivationRequest, start: u32) -> (r: DerivationRequestWithRange)
    ensures
        r == with_start(fill_range(*x), start as int),
{
    DerivationRequestWithRange::new(
        x.factor_source_id,
        x.network_id,
        x.entity_kind,
        x.key_kind,
        x.key_space,
        CACHE_FILLING_QUANTITY,
        start,
    )
}

/// One step of [`ranges_of`] on `items` from position `i`.
proof fn lemma_ranges_step(
    profile: Option<Profile>,
    off: spec_fn(UnquantifiedUnindexDerivationRequest) -> usize,
    items: Seq<(DerivationRequestWithRange, bool)>,
    i: int,
)
    requires
        0 <= i < items.len(),
    ensures
        items.skip(i)[0] == items[i],
        items.skip(i).skip(1) == items.skip(i + 1),
{
    assert(items.skip(i).skip(1) =~= items.skip(i + 1));
}

/// The paths to derive: a cache's worth for every request of
/// `requests_to_satisfy_request` (from its known start, or from where the
/// assigner says), and a cache's worth for every request filling the cache
/// of a factor source of `original_purpose` that `cache` is not saturated
/// for and no request of `requests_to_satisfy_request` is for; grouped per
/// factor source, each path once.
pub fn paths_for_additional_derivation(
    next_index_assigner: &mut NextIndexAssignerWithEphemeralLocalOffsets,
    requests_to_satisfy_request: &Vec<DeriveMore>,
    original_purpose: &FactorInstancesRequestPurpose,
    cache: &PreDerivedKeysCache,
) -> (r: OrderedMap<FactorSourceIDFromHash, OrderedSet<DerivationPath>>)
    requires
        ranges_allowed(
            old(next_index_assigner).spec_profile(),
            |q: UnquantifiedUnindexDerivationRequest| old(next_index_assigner).spec_offset(q),
            items_of(kept_fill_for(cache@, requests_to_satisfy_request@, *original_purpose), requests_to_satisfy_request@),
        ),
    ensures
        additional_paths_fit(
            old(next_index_assigner).spec_profile(),
            |q: UnquantifiedUnindexDerivationRequest| old(next_index_assigner).spec_offset(q),
            cache@,
            requests_to_satisfy_request@,
            *original_purpose,
            r,
        ),
        final(next_index_assigner).spec_profile() == old(next_index_assigner).spec_profile(),
        forall|q: UnquantifiedUnindexDerivationRequest| #[trigger] final(next_index_assigner).spec_offset(q) == final_offsets(
            |q: UnquantifiedUnindexDerivationRequest| old(next_index_assigner).spec_offset(q),
            items_of(kept_fill_for(cache@, requests_to_satisfy_request@, *original_purpose), requests_to_satisfy_request@),
        )(q),
{
    let fill = kept_fill_requests(requests_to_satisfy_request, original_purpose, cache);
    let ghost reqs = requests_to_satisfy_request@;
    let ghost items = items_of(fill@, reqs);
    let ghost profile = next_index_assigner.spec_profile();
    let ghost off0 = |q: UnquantifiedUnindexDerivationRequest| next_index_assigner.spec_offset(q);
    let ghost all = ranges_of(profile, off0, items);
    let ghost nf = fill@.len() as int;
    proof {
        assert(items.len() == fill@.len() + reqs.len());
        assert forall|k: int| 0 <= k < nf implies #[trigger] items[k] == (fill_range(fill@[k]), false) by {}
        assert forall|k: int| 0 <= k < reqs.len() implies #[trigger] items[nf + k] == req_item(reqs[k]) by {}
        assert(items.skip(0) =~= items);
        lemma_ranges_within(profile, off0, items);
    }
    // ranges filling caches, each from where the assigner says
    let mut fill_ranges: Vec<DerivationRequestWithRange> = Vec::new();
    let mut i: usize = 0;
    while i < fill.len()
        invariant
            i <= fill@.len(),
            nf == fill@.len(),
            items == items_of(fill@, reqs),
            items.len() == nf + reqs.len(),
            forall|k: int| 0 <= k < nf ==> #[trigger] items[k] == (fill_range(fill@[k]), false),
            next_index_assigner.spec_profile() == profile,
            fill_ranges@ + ranges_of(profile, |q: UnquantifiedUnindexDerivationRequest| next_index_assigner.spec_offset(q), items.skip(i as int)) == all,
            ranges_allowed(profile, |q: UnquantifiedUnindexDerivationRequest| next_index_assigner.spec_offset(q), items.skip(i as int)),
            final_offsets(|q: UnquantifiedUnindexDerivationRequest| next_index_assigner.spec_offset(q), items.skip(i as int)) == final_offsets(
                off0,
                items,
            ),
            fill_ranges@.len() == i,
        decreases fill@.len() - i,
    {
        let x = fill[i];
        let k = x.unquantified();
        let ghost cur = |q: UnquantifiedUnindexDerivationRequest| next_index_assigner.spec_offset(q);
        proof {
            lemma_ranges_step(profile, cur, items, i as int);
            assert(items[i as int] == (fill_range(x), false));
            assert(range_request(fill_range(x)) == k);
        }
        let next = next_index_assigner.next(k);
        let range = fill_range_from(&x, next.base_index());
        proof {
            let cur2 = |q: UnquantifiedUnindexDerivationRequest| next_index_assigner.spec_offset(q);
            assert(cur2 =~= bump(cur, k));
        }
        fill_ranges.push(range);
        proof {
            let cur2 = |q: UnquantifiedUnindexDerivationRequest| next_index_assigner.spec_offset(q);
            assert(fill_ranges@ + ranges_of(profile, cur2, items.skip(i + 1)) =~= all);
        }
        i = i + 1;
    }
    // ranges for the requests to satisfy
    let mut satisfy_ranges: Vec<DerivationRequestWithRange> = Vec::new();
    let mut j: usize = 0;
    while j < requests_to_satisfy_request.len()
        invariant
            j <= reqs.len(),
            reqs == requests_to_satisfy_request@,
            nf == fill@.len(),
            items == items_of(fill@, reqs),
            items.len() == nf + reqs.len(),
            forall|k: int| 0 <= k < reqs.len() ==> #[trigger] items[nf + k] == req_item(reqs[k]),
            next_index_assigner.spec_profile() == profile,
            fill_ranges@.len() == nf,
            fill_ranges@ + satisfy_ranges@ + ranges_of(profile, |q: UnquantifiedUnindexDerivationRequest| next_index_assigner.spec_offset(q), items.skip(nf + j)) == all,
            ranges_allowed(profile, |q: UnquantifiedUnindexDerivationRequest| next_index_assigner.spec_offset(q), items.skip(nf + j)),
            final_offsets(|q: UnquantifiedUnindexDerivationRequest| next_index_assigner.spec_offset(q), items.skip(nf + j)) == final_offsets(
                off0,
                items,
            ),
            satisfy_ranges@.len() == j,
        decreases reqs.len() - j,
    {
        let d = requests_to_satisfy_request[j];
        let ghost cur = |q: UnquantifiedUnindexDerivationRequest| next_index_assigner.spec_offset(q);
        proof {
            lemma_ranges_step(profile, cur, items, nf + j);
            assert(items[nf + j] == req_item(d));
        }
        let range = match d {
            DeriveMore::WithKnownStartIndex { with_start_index: z, .. } => DerivationRequestWithRange::new(
                z.factor_source_id,
                z.network_id,
                z.entity_kind,
                z.key_kind,
                z.key_space,
                CACHE_FILLING_QUANTITY,
                z.start_base_index,
            ),
            DeriveMore::WithoutKnownLastIndex { request, .. } => {
                let k = request.unquantified();
                assert(range_request(fill_range(request)) == k);
                let next = next_index_assigner.next(k);
                proof {
                    let cur2 = |q: UnquantifiedUnindexDerivationRequest| next_index_assigner.spec_offset(q);
                    assert(cur2 =~= bump(cur, k));
                }
                fill_range_from(&request, next.base_index())
            },
        };
        let ghost before = satisfy_ranges@;
        satisfy_ranges.push(range);
        proof {
            let cur2 = |q: UnquantifiedUnindexDerivationRequest| next_index_assigner.spec_offset(q);
            assert(fill_ranges@ + satisfy_ranges@ + ranges_of(profile, cur2, items.skip(nf + j + 1)) =~= all);
        }
        j = j + 1;
    }
    proof {
        assert(items.skip(nf + reqs.len()) =~= Seq::<(DerivationRequestWithRange, bool)>::empty());
        assert(fill_ranges@ + satisfy_ranges@ =~= all);
        assert(all.take(nf) =~= fill_ranges@);
        assert(all.skip(nf) =~= satisfy_ranges@);
        let cur = |q: UnquantifiedUnindexDerivationRequest| next_index_assigner.spec_offset(q);
        assert forall|q: UnquantifiedUnindexDerivationRequest| #[trigger] next_index_assigner.spec_offset(q) == final_offsets(off0, items)(q) by {
            assert(final_offsets(cur, items.skip(nf + reqs.len())) == cur);
        }
    }
    // the satisfying ranges first, then the filling ones
    let mut ordered: Vec<DerivationRequestWithRange> = satisfy_ranges;
    let mut m: usize = 0;
    while m < fill_ranges.len()
        invariant
            m <= fill_ranges@.len(),
            ordered@ == all.skip(nf) + fill_ranges@.take(m as int),
            fill_ranges@ == all.take(nf),
        decreases fill_ranges@.len() - m,
    {
        ordered.push(fill_ranges[m]);
        assert(fill_ranges@.take(m + 1) =~= fill_ranges@.take(m as int).push(fill_ranges@[m as int]));
        m = m + 1;
    }
    assert(fill_ranges@.take(m as int) =~= fill_ranges@);
    let ghost ord = ordered@;
    // grouped per factor source
    let mut out: OrderedMap<FactorSourceIDFromHash, OrderedSet<DerivationPath>> = OrderedMap::new();
    let mut n: usize = 0;
    while n < ordered.len()
        invariant
            n <= ord.len(),
            ordered@ == ord,
            forall|a: int| 0 <= a < ord.len() ==> (#[trigger] ord[a]).start_base_index + ord[a].quantity <= BIP32_SECURIFIED_HALF,
            forall|f: FactorSourceIDFromHash| #[trigger] out.spec_has(f) == has_factor(ord.take(n as int), f),
            forall|f: FactorSourceIDFromHash| #[trigger] out.spec_get(f) matches Some(s) ==> s@ == append_new(
                Seq::<DerivationPath>::empty(),
                paths_for(ord.take(n as int), f),
            ),
        decreases ord.len() - n,
    {
        let range = ordered[n];
        let paths = range.derivation_paths();
        let fs = range.factor_source_id;
        let ghost prev = out;
        proof {
            assert(ord.take(n + 1).drop_last() =~= ord.take(n as int));
            assert(ord.take(n + 1).last() == range);
        }
        match out.index_of(&fs) {
            Some(idx) => {
                let mut set = out.replace_at(idx, OrderedSet::new());
                set.extend_from_vec(&paths);
                out.replace_at(idx, set);
            },
            None => {
                let mut set = OrderedSet::new();
                set.extend_from_vec(&paths);
                out.insert(fs, set);
            },
        }
        proof {
            assert forall|f: FactorSourceIDFromHash| #[trigger] out.spec_has(f) == has_factor(ord.take(n + 1), f) by {
                if has_factor(ord.take(n as int), f) {
                    let a = choose|a: int| 0 <= a < n && (#[trigger] ord.take(n as int)[a]).factor_source_id == f;
                    assert(ord.take(n + 1)[a] == ord.take(n as int)[a]);
                }
                if has_factor(ord.take(n + 1), f) && f != fs {
                    let a = choose|a: int| 0 <= a < n + 1 && (#[trigger] ord.take(n + 1)[a]).factor_source_id == f;
                    assert(ord.take(n as int)[a] == ord.take(n + 1)[a]);
                }
                assert(ord.take(n + 1)[n as int] == range);
            }
            assert forall|f: FactorSourceIDFromHash| (#[trigger] out.spec_get(f)) is Some implies out.spec_get(f).unwrap()@ == append_new(
                Seq::<DerivationPath>::empty(),
                paths_for(ord.take(n + 1), f),
            ) by {
                if f == fs {
                    lemma_append_new_concat(Seq::<DerivationPath>::empty(), paths_for(ord.take(n as int), f), paths@);
                    if prev.spec_get(f) is None {
                        assert(!has_factor(ord.take(n as int), f));
                        lemma_no_factor_no_paths(ord.take(n as int), f);
                    }
                } else {
                    assert(paths_for(ord.take(n + 1), f) =~= paths_for(ord.take(n as int), f));
                }
            }
        }
        n = n + 1;
    }
    assert(ord.take(ord.len() as int) =~= ord);
    out
}

/// The count `counts` holds for `q`; zero without an entry.
pub open spec fn count_of(counts: OrderedMap<UnquantifiedUnindexDerivationRequest, usize>, q: UnquantifiedUnindexDerivationRequest) -> int {
    match counts.spec_get(q) {
        Some(n) => n as int,
        None => 0,
    }
}

/// What to derive for `d`, as [`req_item`] says.
fn item_of(d: &DeriveMore) -> (r: (DerivationRequestWithRange, bool))
    ensures
        r == req_item(*d),
{
    match d {
        DeriveMore::WithKnownStartIndex { with_start_index: z, .. } => (
            DerivationRequestWithRange::new(
                z.factor_source_id,
                z.network_id,
                z.entity_kind,
                z.key_kind,
                z.key_space,
                CACHE_FILLING_QUANTITY,
                z.start_base_index,
            ),
            true,
        ),
        DeriveMore::WithoutKnownLastIndex { request, .. } => (fill_range_from(request, 0), false),
    }
}

/// Whether every range the paths for `requests_to_satisfy_request` under
/// `original_purpose` with `cache` call for can be made: the assigner can
/// assign each start, and each range lies in its key space.
pub fn can_plan(
    next_index_assigner: &NextIndexAssignerWithEphemeralLocalOffsets,
    requests_to_satisfy_request: &Vec<DeriveMore>,
    original_purpose: &FactorInstancesRequestPurpose,
    cache: &PreDerivedKeysCache,
) -> (b: bool)
    ensures
        b == ranges_allowed(
            next_index_assigner.spec_profile(),
            |q: UnquantifiedUnindexDerivationRequest| next_index_assigner.spec_offset(q),
            items_of(kept_fill_for(cache@, requests_to_satisfy_request@, *original_purpose), requests_to_satisfy_request@),
        ),
{
    let fill = kept_fill_requests(requests_to_satisfy_request, original_purpose, cache);
    let ghost reqs = requests_to_satisfy_request@;
    let ghost items = items_of(fill@, reqs);
    let ghost profile = next_index_assigner.spec_profile();
    let ghost off0 = |q: UnquantifiedUnindexDerivationRequest| next_index_assigner.spec_offset(q);
    let mut xs: Vec<(DerivationRequestWithRange, bool)> = Vec::new();
    let mut i: usize = 0;
    while i < fill.len()
        invariant
            i <= fill@.len(),
            xs@ == fill@.take(i as int).map_values(|x: QuantifiedUnindexDerivationRequest| (fill_range(x), false)),
        decreases fill@.len() - i,
    {
        let r = fill_range_from(&fill[i], 0);
        assert(r == fill_range(fill@[i as int]));
        xs.push((r, false));
        assert(fill@.take(i + 1).map_values(|x: QuantifiedUnindexDerivationRequest| (fill_range(x), false)) =~= fill@.take(
            i as int,
        ).map_values(|x: QuantifiedUnindexDerivationRequest| (fill_range(x), false)).push((r, false)));
        i = i + 1;
    }
    assert(fill@.take(i as int) =~= fill@);
    let ghost head = xs@;
    let mut j: usize = 0;
    while j < requests_to_satisfy_request.len()
        invariant
            j <= reqs.len(),
            reqs == requests_to_satisfy_request@,
            xs@ == head + reqs.take(j as int).map_values(|d: DeriveMore| req_item(d)),
        decreases reqs.len() - j,
    {
        let it = item_of(&requests_to_satisfy_request[j]);
        xs.push(it);
        assert(reqs.take(j + 1).map_values(|d: DeriveMore| req_item(d)) =~= reqs.take(j as int).map_values(|d: DeriveMore| req_item(d)).push(it));
        j = j + 1;
    }
    assert(reqs.take(j as int) =~= reqs);
    assert(xs@ =~= items);
    let ghost mut cur = off0;
    let mut counts: OrderedMap<UnquantifiedUnindexDerivationRequest, usize> = OrderedMap::new();
    let mut n: usize = 0;
    assert(items.skip(0) =~= items);
    while n < xs.len()
        invariant
            n <= items.len(),
            xs@ == items,
            items == items_of(kept_fill_for(cache@, requests_to_satisfy_request@, *original_purpose), requests_to_satisfy_request@),
            off0 == (|q: UnquantifiedUnindexDerivationRequest| next_index_assigner.spec_offset(q)),
            next_index_assigner.spec_profile() == profile,
            ranges_allowed(profile, off0, items) == ranges_allowed(profile, cur, items.skip(n as int)),
            forall|q: UnquantifiedUnindexDerivationRequest| #[trigger] cur(q) == next_index_assigner.spec_offset(q) + count_of(counts, q),
        decreases items.len() - n,
    {
        let (r, known) = xs[n];
        proof {
            lemma_ranges_step(profile, cur, items, n as int);
        }
        if known {
            if r.quantity as u64 > BIP32_SECURIFIED_HALF as u64 || r.start_base_index as u64 + r.quantity as u64 > BIP32_SECURIFIED_HALF as u64 {
                proof {
                    assert(items.skip(n as int)[0] == (r, known));
                    assert(!ranges_allowed(profile, cur, items.skip(n as int)));
                }
                return false;
            }
        } else {
            let k = r.unquantified();
            let had = match counts.get(&k) {
                Some(c) => *c,
                None => 0,
            };
            assert(cur(k) == next_index_assigner.spec_offset(k) + had);
            let cur_k: usize = next_index_assigner.offset(k) + had;
            if cur_k == usize::MAX {
                proof {
                    assert(items.skip(n as int)[0] == (r, known));
                    assert(range_request(r) == k);
                    assert(!ranges_allowed(profile, cur, items.skip(n as int)));
                }
                return false;
            }
            let start = next_index_assigner.start_value(k);
            let s: u64 = start + (cur_k as u32) as u64;
            assert(s == assigned_start(profile, cur, k));
            if s >= BIP32_SECURIFIED_HALF as u64 || r.quantity as u64 > BIP32_SECURIFIED_HALF as u64 || s + r.quantity as u64 > BIP32_SECURIFIED_HALF as u64 {
                proof {
                    assert(items.skip(n as int)[0] == (r, known));
                    assert(range_request(r) == k);
                    assert(!ranges_allowed(profile, cur, items.skip(n as int)));
                }
                return false;
            }
            counts.insert(k, had + 1);
            proof {
                cur = bump(cur, k);
            }
        }
        n = n + 1;
    }
    assert(items.skip(n as int) =~= Seq::<(DerivationRequestWithRange, bool)>::empty());
    true
}

/// Every range that `ranges_of` makes of allowed items lies in its key space.
proof fn lemma_ranges_within(
    profile: Option<Profile>,
    off: spec_fn(UnquantifiedUnindexDerivationRequest) -> usize,
    items: Seq<(DerivationRequestWithRange, bool)>,
)
    requires
        ranges_allowed(profile, off, items),
    ensures
        ranges_of(profile, off, items).len() == items.len(),
        forall|a: int| 0 <= a < items.len() ==> (#[trigger] ranges_of(profile, off, items)[a]).start_base_index
            + ranges_of(profile, off, items)[a].quantity <= BIP32_SECURIFIED_HALF,
    decreases items.len(),
{
    if items.len() > 0 {
        let r = items[0].0;
        let next_off = if items[0].1 { off } else { bump(off, range_request(r)) };
        lemma_ranges_within(profile, next_off, items.skip(1));
        let rest = ranges_of(profile, next_off, items.skip(1));
        assert forall|a: int| 0 <= a < items.len() implies (#[trigger] ranges_of(profile, off, items)[a]).start_base_index
            + ranges_of(profile, off, items)[a].quantity <= BIP32_SECURIFIED_HALF by {
            if a > 0 {
                assert(ranges_of(profile, off, items)[a] == rest[a - 1]);
            }
        }
    }
}

/// Without a range of `f` there is no path of `f`.
proof fn lemma_no_factor_no_paths(ranges: Seq<DerivationRequestWithRange>, f: FactorSourceIDFromHash)
    requires
        !has_factor(ranges, f),
    ensures
        paths_for(ranges, f) == Seq::<DerivationPath>::empty(),
    decreases ranges.len(),
{
    if ranges.len() > 0 {
        assert(ranges[ranges.len() - 1] == ranges.last());
        assert(!has_factor(ranges.drop_last(), f)) by {
            if has_factor(ranges.drop_last(), f) {
                let a = choose|a: int| 0 <= a < ranges.drop_last().len() && (#[trigger] ranges.drop_last()[a]).factor_source_id == f;
                assert(ranges[a] == ranges.drop_last()[a]);
            }
        }
        lemma_no_factor_no_paths(ranges.drop_last(), f);
        assert(Seq::<DerivationPath>::empty() + Seq::<DerivationPath>::empty() =~= Seq::<DerivationPath>::empty());
    }
}

} // verus!

//! The contract's storage: services with their discounts, subscribers and
//! subscriptions (one slot per service id), the per-address id lists, the
//! pause flag and the contract's cut. Its view is a `ContractView` of maps;
//! the operations here read and write single storage entries.
use vstd::prelude::*;
use crate::amount::Amount;
use crate::collections::{
    AddressMap, entries_map, entries_unique, lemma_entries_map_at, subscription_views, address_set_insert, address_set_swap_remove, copy_addresses, copy_ids,
    id_set_insert, id_set_swap_remove, set_inserted, set_removed,
};
use crate::types::{
    Address, Discount, DiscountView, Error, PeriodType, Service, ServiceView, SubId, Subscription,
    SubscriptionView, MAX_TEXT_LEN,
};

verus! {

/// What the contract keeps for a service that can be stored: a positive
/// price and period, a period counted in seconds or epochs, and name and
/// webpage of at most 64 bytes.
pub open spec fn service_valid(s: ServiceView) -> bool {
    &&& s.price > 0
    &&& s.payment_period > 0
    &&& (s.period_type == PeriodType::Seconds || s.period_type == PeriodType::Epochs)
    &&& s.service_name.len() <= MAX_TEXT_LEN
    &&& s.service_webpage.len() <= MAX_TEXT_LEN
}

/// Mathematical view of the whole contract storage.
pub struct ContractView {
    /// The account that deployed the contract.
    pub owner: Address,
    pub paused: bool,
    pub contract_cut_percentage: nat,
    /// Ids `1..=last_valid_service_id` have been handed out.
    pub last_valid_service_id: nat,
    pub services: Map<u64, ServiceView>,
    pub discounts: Map<u64, DiscountView>,
    pub subscriptions: Map<SubId, SubscriptionView>,
    /// Subscriber list of every service id (empty for ids not handed out).
    pub subscribers: Map<u64, Seq<Address>>,
    /// Service ids listed for every address (empty when none).
    pub services_by_address: Map<Address, Seq<u64>>,
    pub subscriptions_by_address: Map<Address, Seq<u64>>,
    pub discounts_by_address: Map<Address, Seq<u64>>,
}

/// A list-valued map that is defined for every key.
pub open spec fn total_lists<K, T>(m: Map<K, Seq<T>>) -> bool {
    &&& forall|k: K| #[trigger] m.contains_key(k)
    &&& forall|k: K| (#[trigger] m[k]).no_duplicates()
}

impl ContractView {
    /// Facts that hold of the storage in every reachable state.
    pub open spec fn wf(self) -> bool {
        &&& forall|id: u64| #[trigger]
            self.services.contains_key(id) ==> 1 <= id <= self.last_valid_service_id
                && service_valid(self.services[id])
        &&& forall|id: u64| #[trigger]
            self.discounts.contains_key(id) ==> 1 <= id <= self.last_valid_service_id
        &&& forall|k: SubId| #[trigger]
            self.subscriptions.contains_key(k) ==> 1 <= k.service_id
                <= self.last_valid_service_id
        &&& total_lists(self.subscribers)
        &&& forall|id: u64|
            !(1 <= id <= self.last_valid_service_id) ==> #[trigger] self.subscribers[id]
                == Seq::<Address>::empty()
        &&& total_lists(self.services_by_address)
        &&& total_lists(self.subscriptions_by_address)
        &&& total_lists(self.discounts_by_address)
        &&& self.last_valid_service_id <= u64::MAX
    }

    /// Whether an id has been handed out to a service.
    pub open spec fn has_slot(self, id: u64) -> bool {
        1 <= id <= self.last_valid_service_id
    }
}

/// The storage of a freshly deployed contract owned by `owner`: no
/// services, discounts or subscriptions, empty lists, not paused, no cut.
pub open spec fn initial_view(owner: Address) -> ContractView {
    ContractView {
        owner,
        paused: false,
        contract_cut_percentage: 0,
        last_valid_service_id: 0,
        services: Map::empty(),
        discounts: Map::empty(),
        subscriptions: Map::empty(),
        subscribers: Map::new(|id: u64| true, |id: u64| Seq::<Address>::empty()),
        services_by_address: Map::new(|a: Address| true, |a: Address| Seq::<u64>::empty()),
        subscriptions_by_address: Map::new(|a: Address| true, |a: Address| Seq::<u64>::empty()),
        discounts_by_address: Map::new(|a: Address| true, |a: Address| Seq::<u64>::empty()),
    }
}

/// Storage of one service id.
pub struct ServiceSlot {
    service: Option<Service>,
    discount: Option<Discount>,
    subscribers: Vec<Address>,
    subscriptions: AddressMap<Subscription>,
}

impl ServiceSlot {
    pub closed spec fn wf(&self) -> bool {
        &&& self.subscribers@.no_duplicates()
        &&& self.subscriptions.wf()
        &&& (self.service matches Some(s) ==> service_valid(s@))
    }

    fn empty() -> (res: ServiceSlot)
        ensures
            res.wf(),
            res.service is None,
            res.discount is None,
            res.subscribers@ == Seq::<Address>::empty(),
            res.subscriptions.map() == Map::<Address, Subscription>::empty(),
    {
        ServiceSlot {
            service: None,
            discount: None,
            subscribers: Vec::new(),
            subscriptions: AddressMap::new(),
        }
    }
}

/// An address-to-ids index whose id lists have no duplicates.
pub closed spec fn index_wf(m: AddressMap<Vec<u64>>) -> bool {
    &&& m.wf()
    &&& forall|a: Address| #[trigger] m.map().contains_key(a) ==> m.map()[a]@.no_duplicates()
}

/// View of an address-to-ids index, defined for every address.
pub closed spec fn index_view(m: AddressMap<Vec<u64>>) -> Map<Address, Seq<u64>> {
    Map::new(
        |a: Address| true,
        |a: Address|
            if m.map().contains_key(a) {
                m.map()[a]@
            } else {
                Seq::<u64>::empty()
            },
    )
}

proof fn lemma_index_view_total(m: AddressMap<Vec<u64>>)
    requires
        index_wf(m),
    ensures
        total_lists(index_view(m)),
{
}

fn index_insert(m: &mut AddressMap<Vec<u64>>, a: Address, id: u64)
    requires
        index_wf(*old(m)),
    ensures
        index_wf(*final(m)),
        index_view(*final(m)) == index_view(*old(m)).insert(
            a,
            set_inserted(index_view(*old(m))[a], id),
        ),
{
    let ghost old_m = *m;
    let mut ids = match m.remove(&a) {
        Some(v) => v,
        None => Vec::new(),
    };
    assert(ids@ == index_view(old_m)[a]);
    id_set_insert(&mut ids, id);
    m.insert(a, ids);
    assert(index_view(*m) =~= index_view(old_m).insert(a, set_inserted(index_view(old_m)[a], id)));
}

fn index_swap_remove(m: &mut AddressMap<Vec<u64>>, a: Address, id: u64)
    requires
        index_wf(*old(m)),
    ensures
        index_wf(*final(m)),
        index_view(*final(m)) == index_view(*old(m)).insert(
            a,
            set_removed(index_view(*old(m))[a], id),
        ),
{
    let ghost old_m = *m;
    let mut ids = match m.remove(&a) {
        Some(v) => v,
        None => Vec::new(),
    };
    assert(ids@ == index_view(old_m)[a]);
    id_set_swap_remove(&mut ids, id);
    m.insert(a, ids);
    assert(index_view(*m) =~= index_view(old_m).insert(a, set_removed(index_view(old_m)[a], id)));
}

fn index_get(m: &AddressMap<Vec<u64>>, a: &Address) -> (res: Vec<u64>)
    requires
        index_wf(*m),
    ensures
        res@ == index_view(*m)[*a],
{
    match m.get(a) {
        Some(v) => copy_ids(v),
        None => Vec::new(),
    }
}

/// The contract's storage.
pub struct NiftySubsState {
    owner: Address,
    paused: bool,
    contract_cut_percentage: Amount,
    slots: Vec<ServiceSlot>,
    services_by_address: AddressMap<Vec<u64>>,
    subscriptions_by_address: AddressMap<Vec<u64>>,
    discounts_by_address: AddressMap<Vec<u64>>,
}

pub closed spec fn slots_wf(slots: Seq<ServiceSlot>) -> bool {
    forall|i: int| 0 <= i < slots.len() ==> #[trigger] slots[i].wf()
}

impl View for NiftySubsState {
    type V = ContractView;

    closed spec fn view(&self) -> ContractView {
        let slots = self.slots@;
        let n = slots.len();
        ContractView {
            owner: self.owner,
            paused: self.paused,
            contract_cut_percentage: self.contract_cut_percentage@,
            last_valid_service_id: n,
            services: Map::new(
                |id: u64| 1 <= id <= n && slots[id - 1].service is Some,
                |id: u64| slots[id - 1].service->0@,
            ),
            discounts: Map::new(
                |id: u64| 1 <= id <= n && slots[id - 1].discount is Some,
                |id: u64| slots[id - 1].discount->0@,
            ),
            subscriptions: Map::new(
                |k: SubId|
                    1 <= k.service_id <= n && slots[k.service_id - 1].subscriptions.map().contains_key(
                        k.address,
                    ),
                |k: SubId| slots[k.service_id - 1].subscriptions.map()[k.address]@,
            ),
            subscribers: Map::new(
                |id: u64| true,
                |id: u64|
                    if 1 <= id <= n {
                        slots[id - 1].subscribers@
                    } else {
                        Seq::<Address>::empty()
                    },
            ),
            services_by_address: index_view(self.services_by_address),
            subscriptions_by_address: index_view(self.subscriptions_by_address),
            discounts_by_address: index_view(self.discounts_by_address),
        }
    }
}

impl NiftySubsState {
    #[verifier::type_invariant]
    closed spec fn inv(self) -> bool {
        &&& slots_wf(self.slots@)
        &&& self.slots@.len() <= u64::MAX
        &&& index_wf(self.services_by_address)
        &&& index_wf(self.subscriptions_by_address)
        &&& index_wf(self.discounts_by_address)
    }

    proof fn lemma_view_wf(&self)
        requires
            self.inv(),
        ensures
            self@.wf(),
    {
        let v = self@;
        let slots = self.slots@;
        lemma_index_view_total(self.services_by_address);
        lemma_index_view_total(self.subscriptions_by_address);
        lemma_index_view_total(self.discounts_by_address);
        assert forall|id: u64| #[trigger] v.services.contains_key(id) implies 1 <= id
            <= v.last_valid_service_id && service_valid(v.services[id]) by {
            assert(slots[id - 1].wf());
        }
        assert forall|id: u64| (#[trigger] v.subscribers[id]).no_duplicates() by {
            if 1 <= id <= slots.len() {
                assert(slots[id - 1].wf());
            }
        }
        assert(total_lists(v.subscribers));
        assert forall|k: SubId| #[trigger] v.subscriptions.contains_key(k) implies 1 <= k.service_id
            <= v.last_valid_service_id by {}
        assert forall|id: u64| #[trigger] v.discounts.contains_key(id) implies 1 <= id
            <= v.last_valid_service_id by {}
        assert forall|id: u64|
            !(1 <= id <= v.last_valid_service_id) implies #[trigger] v.subscribers[id]
                == Seq::<Address>::empty() by {}
        assert(total_lists(v.services_by_address));
        assert(total_lists(v.subscriptions_by_address));
        assert(total_lists(v.discounts_by_address));
        assert(v.last_valid_service_id <= u64::MAX);
    }

    /// Storage of a freshly deployed contract owned by `owner`.
    pub(crate) fn new(owner: Address) -> (res: NiftySubsState)
        ensures
            res@ == initial_view(owner),
            res@.wf(),
    {
        let res = NiftySubsState {
            owner,
            paused: false,
            contract_cut_percentage: Amount::zero(),
            slots: Vec::new(),
            services_by_address: AddressMap::new(),
            subscriptions_by_address: AddressMap::new(),
            discounts_by_address: AddressMap::new(),
        };
        proof {
            res.lemma_view_wf();
            assert(res@.services =~= Map::<u64, ServiceView>::empty());
            assert(res@.discounts =~= Map::<u64, DiscountView>::empty());
            assert(res@.subscriptions =~= Map::<SubId, SubscriptionView>::empty());
            let iv = initial_view(owner);
            assert(res@.subscribers =~= iv.subscribers);
            assert(res@.services_by_address =~= iv.services_by_address);
            assert(res@.subscriptions_by_address =~= iv.subscriptions_by_address);
            assert(res@.discounts_by_address =~= iv.discounts_by_address);
        }
        res
    }

    /// Every reachable storage state is well formed (see `ContractView::wf`).
    pub(crate) fn wf_holds(&self)
        ensures
            self@.wf(),
    {
        proof {
            use_type_invariant(self);
            self.lemma_view_wf();
        }
    }

    /// The account that deployed the contract.
    pub(crate) fn contract_owner(&self) -> (res: Address)
        ensures
            res == self@.owner,
    {
        self.owner
    }

    /// Whether the contract is paused.
    pub(crate) fn paused_flag(&self) -> (res: bool)
        ensures
            res == self@.paused,
    {
        self.paused
    }

    /// The cut the contract takes from new services, in basis points.
    pub(crate) fn cut(&self) -> (res: Amount)
        ensures
            res@ == self@.contract_cut_percentage,
    {
        self.contract_cut_percentage.copy()
    }

    /// The highest service id handed out so far.
    pub(crate) fn last_service_id(&self) -> (res: u64)
        ensures
            res == self@.last_valid_service_id,
    {
        self.slots.len() as u64
    }

    /// The service stored under `id`, if any.
    pub(crate) fn lookup_service(&self, id: u64) -> (res: Option<&Service>)
        ensures
            self@.wf(),
            match res {
                Some(s) => self@.services.contains_key(id) && self@.services[id] == s@
                    && service_valid(s@),
                None => !self@.services.contains_key(id),
            },
    {
        proof {
            use_type_invariant(self);
            self.lemma_view_wf();
        }
        if id == 0 || id > self.slots.len() as u64 {
            return None;
        }
        let i = (id - 1) as usize;
        proof {
            assert(self.slots@[i as int].wf());
        }
        match &self.slots[i].service {
            Some(s) => Some(s),
            None => None,
        }
    }

    /// The discount stored under `id`, if any.
    pub(crate) fn lookup_discount(&self, id: u64) -> (res: Option<&Discount>)
        ensures
            match res {
                Some(d) => self@.discounts.contains_key(id) && self@.discounts[id] == d@,
                None => !self@.discounts.contains_key(id),
            },
    {
        if id == 0 || id > self.slots.len() as u64 {
            return None;
        }
        let i = (id - 1) as usize;
        match &self.slots[i].discount {
            Some(d) => Some(d),
            None => None,
        }
    }

    /// The subscription of `address` to service `id`, if any.
    pub(crate) fn lookup_subscription(&self, address: &Address, id: u64) -> (res: Option<&Subscription>)
        ensures
            self@.wf(),
            match res {
                Some(s) => self@.subscriptions.contains_key(SubId { address: *address, service_id: id })
                    && self@.subscriptions[SubId { address: *address, service_id: id }] == s@,
                None => !self@.subscriptions.contains_key(
                    SubId { address: *address, service_id: id },
                ),
            },
    {
        proof {
            use_type_invariant(self);
            self.lemma_view_wf();
        }
        if id == 0 || id > self.slots.len() as u64 {
            return None;
        }
        let i = (id - 1) as usize;
        proof {
            assert(self.slots@[i as int].wf());
        }
        self.slots[i].subscriptions.get(address)
    }

    /// The subscriber list of service `id`, in storage order.
    pub(crate) fn subscriber_list(&self, id: u64) -> (res: Vec<Address>)
        ensures
            res@ == self@.subscribers[id],
    {
        if id == 0 || id > self.slots.len() as u64 {
            return Vec::new();
        }
        let i = (id - 1) as usize;
        copy_addresses(&self.slots[i].subscribers)
    }

    /// The service ids listed for `address` as created by it.
    pub(crate) fn service_ids_of(&self, address: &Address) -> (res: Vec<u64>)
        ensures
            res@ == self@.services_by_address[*address],
    {
        proof {
            use_type_invariant(self);
        }
        index_get(&self.services_by_address, address)
    }

    /// The service ids listed for `address` as subscribed to.
    pub(crate) fn subscription_ids_of(&self, address: &Address) -> (res: Vec<u64>)
        ensures
            res@ == self@.subscriptions_by_address[*address],
    {
        proof {
            use_type_invariant(self);
        }
        index_get(&self.subscriptions_by_address, address)
    }

    /// The discount ids listed for `address`.
    pub(crate) fn discount_ids_of(&self, address: &Address) -> (res: Vec<u64>)
        ensures
            res@ == self@.discounts_by_address[*address],
    {
        proof {
            use_type_invariant(self);
        }
        index_get(&self.discounts_by_address, address)
    }
}

/// The subscriptions of one service, keyed by subscriber.
pub open spec fn service_subscriptions(v: ContractView, id: u64) -> Map<Address, SubscriptionView> {
    Map::new(
        |a: Address| v.subscriptions.contains_key(SubId { address: a, service_id: id }),
        |a: Address| v.subscriptions[SubId { address: a, service_id: id }],
    )
}

/// `subs` with the subscriptions of service `id` replaced by `m`.
pub open spec fn with_service_subscriptions(
    subs: Map<SubId, SubscriptionView>,
    id: u64,
    m: Map<Address, SubscriptionView>,
) -> Map<SubId, SubscriptionView> {
    Map::new(
        |k: SubId|
            if k.service_id == id {
                m.contains_key(k.address)
            } else {
                subs.contains_key(k)
            },
        |k: SubId|
            if k.service_id == id {
                m[k.address]
            } else {
                subs[k]
            },
    )
}

impl NiftySubsState {
    fn take_slot(&mut self, i: usize) -> (slot: ServiceSlot)
        requires
            i < old(self).slots@.len(),
        ensures
            slot == old(self).slots@[i as int],
            slot.wf(),
            final(self).slots@.len() == old(self).slots@.len(),
            final(self).owner == old(self).owner,
            final(self).paused == old(self).paused,
            final(self).contract_cut_percentage == old(self).contract_cut_percentage,
            final(self).services_by_address == old(self).services_by_address,
            final(self).subscriptions_by_address == old(self).subscriptions_by_address,
            final(self).discounts_by_address == old(self).discounts_by_address,
            forall|j: int|
                0 <= j < old(self).slots@.len() && j != i ==> final(self).slots@[j] == old(
                    self,
                ).slots@[j],
    {
        proof {
            use_type_invariant(&*self);
        }
        let mut slots: Vec<ServiceSlot> = Vec::new();
        std::mem::swap(&mut slots, &mut self.slots);
        let mut slot = ServiceSlot::empty();
        slots.set_and_swap(i, &mut slot);
        proof {
            assert(slots_wf(slots@)) by {
                assert forall|j: int| 0 <= j < slots@.len() implies #[trigger] slots@[j].wf() by {
                    if j != i {
                        assert(old(self).slots@[j].wf());
                    }
                }
            }
            assert(old(self).slots@[i as int].wf());
        }
        self.slots = slots;
        slot
    }

    fn put_slot(&mut self, i: usize, slot: ServiceSlot)
        requires
            i < old(self).slots@.len(),
            slot.wf(),
        ensures
            final(self).slots@ == old(self).slots@.update(i as int, slot),
            final(self).owner == old(self).owner,
            final(self).paused == old(self).paused,
            final(self).contract_cut_percentage == old(self).contract_cut_percentage,
            final(self).services_by_address == old(self).services_by_address,
            final(self).subscriptions_by_address == old(self).subscriptions_by_address,
            final(self).discounts_by_address == old(self).discounts_by_address,
    {
        proof {
            use_type_invariant(&*self);
        }
        let mut slots: Vec<ServiceSlot> = Vec::new();
        std::mem::swap(&mut slots, &mut self.slots);
        let mut slot = slot;
        slots.set_and_swap(i, &mut slot);
        proof {
            assert forall|j: int| 0 <= j < slots@.len() implies #[trigger] slots@[j].wf() by {
                if j != i {
                    assert(old(self).slots@[j].wf());
                }
            }
        }
        self.slots = slots;
    }

    /// Sets the pause flag.
    pub(crate) fn set_paused(&mut self, paused: bool)
        ensures
            final(self)@ == (ContractView { paused, ..old(self)@ }),
    {
        proof {
            use_type_invariant(&*self);
        }
        self.paused = paused;
    }

    /// Sets the contract's cut for new services.
    pub(crate) fn set_contract_cut(&mut self, cut: Amount)
        ensures
            final(self)@ == (ContractView { contract_cut_percentage: cut@, ..old(self)@ }),
    {
        proof {
            use_type_invariant(&*self);
        }
        self.contract_cut_percentage = cut;
    }

    /// Stores a service under the next id and returns that id.
    pub(crate) fn push_service(&mut self, service: Service) -> (id: u64)
        requires
            service_valid(service@),
            old(self)@.last_valid_service_id < u64::MAX,
        ensures
            id == old(self)@.last_valid_service_id + 1,
            final(self)@ == (ContractView {
                last_valid_service_id: id as nat,
                services: old(self)@.services.insert(id, service@),
                ..old(self)@
            }),
    {
        proof {
            use_type_invariant(&*self);
        }
        let ghost old_view = self@;
        let ghost service_view = service@;
        let slot = ServiceSlot {
            service: Some(service),
            discount: None,
            subscribers: Vec::new(),
            subscriptions: AddressMap::new(),
        };
        let mut slots: Vec<ServiceSlot> = Vec::new();
        std::mem::swap(&mut slots, &mut self.slots);
        let ghost old_slots = slots@;
        slots.push(slot);
        proof {
            assert forall|j: int| 0 <= j < slots@.len() implies #[trigger] slots@[j].wf() by {
                if j < old_slots.len() {
                    assert(old_slots[j].wf());
                }
            }
        }
        self.slots = slots;
        let id = self.slots.len() as u64;
        proof {
            let v = self@;
            assert(v.services =~= old_view.services.insert(id, service_view));
            assert(v.discounts =~= old_view.discounts);
            assert(v.subscriptions =~= old_view.subscriptions);
            assert(v.subscribers =~= old_view.subscribers);
        }
        id
    }

    /// Replaces the service stored under an id that has been handed out.
    pub(crate) fn replace_service(&mut self, id: u64, service: Service)
        requires
            old(self)@.has_slot(id),
            service_valid(service@),
        ensures
            final(self)@ == (ContractView {
                services: old(self)@.services.insert(id, service@),
                ..old(self)@
            }),
    {
        let ghost old_view = self@;
        let ghost service_view = service@;
        let slot_count = self.slots.len();
        let i = (id - 1) as usize;
        assert(i < slot_count);
        let mut slot = self.take_slot(i);
        slot.service = Some(service);
        self.put_slot(i, slot);
        proof {
            let v = self@;
            assert(v.services =~= old_view.services.insert(id, service_view));
            assert(v.discounts =~= old_view.discounts);
            assert(v.subscriptions =~= old_view.subscriptions);
            assert(v.subscribers =~= old_view.subscribers);
        }
    }

    /// Clears the service stored under an id that has been handed out.
    pub(crate) fn clear_service(&mut self, id: u64)
        requires
            old(self)@.has_slot(id),
        ensures
            final(self)@ == (ContractView { services: old(self)@.services.remove(id), ..old(self)@ }),
    {
        let ghost old_view = self@;
        let slot_count = self.slots.len();
        let i = (id - 1) as usize;
        assert(i < slot_count);
        let mut slot = self.take_slot(i);
        slot.service = None;
        self.put_slot(i, slot);
        proof {
            let v = self@;
            assert(v.services =~= old_view.services.remove(id));
            assert(v.discounts =~= old_view.discounts);
            assert(v.subscriptions =~= old_view.subscriptions);
            assert(v.subscribers =~= old_view.subscribers);
        }
    }

    /// Stores a discount under an id that has been handed out.
    pub(crate) fn set_discount(&mut self, id: u64, discount: Discount)
        requires
            old(self)@.has_slot(id),
        ensures
            final(self)@ == (ContractView {
                discounts: old(self)@.discounts.insert(id, discount@),
                ..old(self)@
            }),
    {
        let ghost old_view = self@;
        let ghost discount_view = discount@;
        let slot_count = self.slots.len();
        let i = (id - 1) as usize;
        assert(i < slot_count);
        let mut slot = self.take_slot(i);
        slot.discount = Some(discount);
        self.put_slot(i, slot);
        proof {
            let v = self@;
            assert(v.services =~= old_view.services);
            assert(v.discounts =~= old_view.discounts.insert(id, discount_view));
            assert(v.subscriptions =~= old_view.subscriptions);
            assert(v.subscribers =~= old_view.subscribers);
        }
    }

    /// Stores a subscription for a service id that has been handed out.
    pub(crate) fn set_subscription(&mut self, key: SubId, subscription: Subscription)
        requires
            old(self)@.has_slot(key.service_id),
        ensures
            final(self)@ == (ContractView {
                subscriptions: old(self)@.subscriptions.insert(key, subscription@),
                ..old(self)@
            }),
    {
        let ghost old_view = self@;
        let ghost sub_view = subscription@;
        let slot_count = self.slots.len();
        let i = (key.service_id - 1) as usize;
        assert(i < slot_count);
        let mut slot = self.take_slot(i);
        slot.subscriptions.insert(key.address, subscription);
        self.put_slot(i, slot);
        proof {
            let v = self@;
            assert(v.services =~= old_view.services);
            assert(v.discounts =~= old_view.discounts);
            assert(v.subscriptions =~= old_view.subscriptions.insert(key, sub_view));
            assert(v.subscribers =~= old_view.subscribers);
        }
    }

    /// Clears a subscription for a service id that has been handed out.
    pub(crate) fn clear_subscription(&mut self, key: SubId)
        requires
            old(self)@.has_slot(key.service_id),
        ensures
            final(self)@ == (ContractView {
                subscriptions: old(self)@.subscriptions.remove(key),
                ..old(self)@
            }),
    {
        let ghost old_view = self@;
        let slot_count = self.slots.len();
        let i = (key.service_id - 1) as usize;
        assert(i < slot_count);
        let mut slot = self.take_slot(i);
        let _ = slot.subscriptions.remove(&key.address);
        self.put_slot(i, slot);
        proof {
            let v = self@;
            assert(v.services =~= old_view.services);
            assert(v.discounts =~= old_view.discounts);
            assert(v.subscriptions =~= old_view.subscriptions.remove(key));
            assert(v.subscribers =~= old_view.subscribers);
        }
    }

    /// A copy of the subscriptions of a service id that has been handed out.
    pub(crate) fn copy_service_subscriptions(&self, id: u64) -> (res: AddressMap<Subscription>)
        requires
            self@.has_slot(id),
        ensures
            res.wf(),
            subscription_views(res.map()) == service_subscriptions(self@, id),
    {
        proof {
            use_type_invariant(self);
        }
        let slot_count = self.slots.len();
        let i = (id - 1) as usize;
        proof {
            assert(self.slots@[i as int].wf());
        }
        let res = self.slots[i].subscriptions.copy();
        proof {
            assert(subscription_views(self.slots@[i as int].subscriptions.map())
                =~= service_subscriptions(self@, id));
        }
        res
    }

    /// Replaces all subscriptions of a service id that has been handed out.
    pub(crate) fn replace_service_subscriptions(&mut self, id: u64, subs: AddressMap<Subscription>)
        requires
            old(self)@.has_slot(id),
            subs.wf(),
        ensures
            final(self)@ == (ContractView {
                subscriptions: with_service_subscriptions(
                    old(self)@.subscriptions,
                    id,
                    subscription_views(subs.map()),
                ),
                ..old(self)@
            }),
    {
        let ghost old_view = self@;
        let ghost subs_view = subscription_views(subs.map());
        let slot_count = self.slots.len();
        let i = (id - 1) as usize;
        assert(i < slot_count);
        let mut slot = self.take_slot(i);
        slot.subscriptions = subs;
        self.put_slot(i, slot);
        proof {
            let v = self@;
            assert(v.services =~= old_view.services);
            assert(v.discounts =~= old_view.discounts);
            assert(v.subscriptions =~= with_service_subscriptions(
                old_view.subscriptions,
                id,
                subs_view,
            ));
            assert(v.subscribers =~= old_view.subscribers);
        }
    }

    /// Adds an address to the subscriber list of a service id that has been
    /// handed out.
    pub(crate) fn subscribers_insert(&mut self, id: u64, a: Address)
        requires
            old(self)@.has_slot(id),
        ensures
            final(self)@ == (ContractView {
                subscribers: old(self)@.subscribers.insert(
                    id,
                    set_inserted(old(self)@.subscribers[id], a),
                ),
                ..old(self)@
            }),
    {
        let ghost old_view = self@;
        let slot_count = self.slots.len();
        let i = (id - 1) as usize;
        assert(i < slot_count);
        let mut slot = self.take_slot(i);
        address_set_insert(&mut slot.subscribers, a);
        self.put_slot(i, slot);
        proof {
            let v = self@;
            assert(v.services =~= old_view.services);
            assert(v.discounts =~= old_view.discounts);
            assert(v.subscriptions =~= old_view.subscriptions);
            assert(v.subscribers =~= old_view.subscribers.insert(
                id,
                set_inserted(old_view.subscribers[id], a),
            ));
        }
    }

    /// Swap-removes an address from the subscriber list of a service id that
    /// has been handed out.
    pub(crate) fn subscribers_swap_remove(&mut self, id: u64, a: &Address)
        requires
            old(self)@.has_slot(id),
        ensures
            final(self)@ == (ContractView {
                subscribers: old(self)@.subscribers.insert(
                    id,
                    set_removed(old(self)@.subscribers[id], *a),
                ),
                ..old(self)@
            }),
    {
        let ghost old_view = self@;
        let slot_count = self.slots.len();
        let i = (id - 1) as usize;
        assert(i < slot_count);
        let mut slot = self.take_slot(i);
        address_set_swap_remove(&mut slot.subscribers, a);
        self.put_slot(i, slot);
        proof {
            let v = self@;
            assert(v.services =~= old_view.services);
            assert(v.discounts =~= old_view.discounts);
            assert(v.subscriptions =~= old_view.subscriptions);
            assert(v.subscribers =~= old_view.subscribers.insert(
                id,
                set_removed(old_view.subscribers[id], *a),
            ));
        }
    }

    /// Replaces the subscriber list of a service id that has been handed out.
    pub(crate) fn replace_subscribers(&mut self, id: u64, subscribers: Vec<Address>)
        requires
            old(self)@.has_slot(id),
            subscribers@.no_duplicates(),
        ensures
            final(self)@ == (ContractView {
                subscribers: old(self)@.subscribers.insert(id, subscribers@),
                ..old(self)@
            }),
    {
        let ghost old_view = self@;
        let ghost new_list = subscribers@;
        let slot_count = self.slots.len();
        let i = (id - 1) as usize;
        assert(i < slot_count);
        let mut slot = self.take_slot(i);
        slot.subscribers = subscribers;
        self.put_slot(i, slot);
        proof {
            let v = self@;
            assert(v.services =~= old_view.services);
            assert(v.discounts =~= old_view.discounts);
            assert(v.subscriptions =~= old_view.subscriptions);
            assert(v.subscribers =~= old_view.subscribers.insert(id, new_list));
        }
    }

    /// Lists service `id` among the services created by `a`.
    pub(crate) fn services_by_address_insert(&mut self, a: Address, id: u64)
        ensures
            final(self)@ == (ContractView {
                services_by_address: old(self)@.services_by_address.insert(
                    a,
                    set_inserted(old(self)@.services_by_address[a], id),
                ),
                ..old(self)@
            }),
    {
        proof {
            use_type_invariant(&*self);
        }
        let mut m: AddressMap<Vec<u64>> = AddressMap::new();
        std::mem::swap(&mut m, &mut self.services_by_address);
        index_insert(&mut m, a, id);
        self.services_by_address = m;
    }

    /// Lists service `id` among the subscriptions of `a`.
    pub(crate) fn subscriptions_by_address_insert(&mut self, a: Address, id: u64)
        ensures
            final(self)@ == (ContractView {
                subscriptions_by_address: old(self)@.subscriptions_by_address.insert(
                    a,
                    set_inserted(old(self)@.subscriptions_by_address[a], id),
                ),
                ..old(self)@
            }),
    {
        proof {
            use_type_invariant(&*self);
        }
        let mut m: AddressMap<Vec<u64>> = AddressMap::new();
        std::mem::swap(&mut m, &mut self.subscriptions_by_address);
        index_insert(&mut m, a, id);
        self.subscriptions_by_address = m;
    }

    /// Removes service `id` from the subscriptions listed for `a`.
    pub(crate) fn subscriptions_by_address_swap_remove(&mut self, a: Address, id: u64)
        ensures
            final(self)@ == (ContractView {
                subscriptions_by_address: old(self)@.subscriptions_by_address.insert(
                    a,
                    set_removed(old(self)@.subscriptions_by_address[a], id),
                ),
                ..old(self)@
            }),
    {
        proof {
            use_type_invariant(&*self);
        }
        let mut m: AddressMap<Vec<u64>> = AddressMap::new();
        std::mem::swap(&mut m, &mut self.subscriptions_by_address);
        index_swap_remove(&mut m, a, id);
        self.subscriptions_by_address = m;
    }

    /// Lists discount `id` among the discounts of `a`.
    pub(crate) fn discounts_by_address_insert(&mut self, a: Address, id: u64)
        ensures
            final(self)@ == (ContractView {
                discounts_by_address: old(self)@.discounts_by_address.insert(
                    a,
                    set_inserted(old(self)@.discounts_by_address[a], id),
                ),
                ..old(self)@
            }),
    {
        proof {
            use_type_invariant(&*self);
        }
        let mut m: AddressMap<Vec<u64>> = AddressMap::new();
        std::mem::swap(&mut m, &mut self.discounts_by_address);
        index_insert(&mut m, a, id);
        self.discounts_by_address = m;
    }
}

/// Plain storage of one service id, as the contract persists it.
pub struct SlotRecord {
    pub service: Option<Service>,
    pub discount: Option<Discount>,
    pub subscribers: Vec<Address>,
    pub subscriptions: Vec<(Address, Subscription)>,
}

/// Plain storage of the whole contract, as it is persisted between calls.
/// Slot `i` holds service id `i + 1`.
pub struct StateRecords {
    pub owner: Address,
    pub paused: bool,
    pub contract_cut_percentage: Amount,
    pub slots: Vec<SlotRecord>,
    pub services_by_address: Vec<(Address, Vec<u64>)>,
    pub subscriptions_by_address: Vec<(Address, Vec<u64>)>,
    pub discounts_by_address: Vec<(Address, Vec<u64>)>,
}

pub open spec fn slot_record_wf(s: SlotRecord) -> bool {
    &&& s.subscribers@.no_duplicates()
    &&& entries_unique(s.subscriptions@)
    &&& (s.service matches Some(x) ==> service_valid(x@))
}

pub open spec fn index_records_wf(e: Seq<(Address, Vec<u64>)>) -> bool {
    &&& entries_unique(e)
    &&& forall|i: int| 0 <= i < e.len() ==> (#[trigger] e[i]).1@.no_duplicates()
}

/// Records that the contract can hold: distinct keys and list entries, and
/// valid services.
pub open spec fn records_wf(r: StateRecords) -> bool {
    &&& r.slots@.len() <= u64::MAX
    &&& forall|i: int| 0 <= i < r.slots@.len() ==> slot_record_wf(#[trigger] r.slots@[i])
    &&& index_records_wf(r.services_by_address@)
    &&& index_records_wf(r.subscriptions_by_address@)
    &&& index_records_wf(r.discounts_by_address@)
}

/// View of an address-to-ids record list, defined for every address.
pub open spec fn index_records_view(e: Seq<(Address, Vec<u64>)>) -> Map<Address, Seq<u64>> {
    Map::new(
        |a: Address| true,
        |a: Address|
            if entries_map(e).contains_key(a) {
                entries_map(e)[a]@
            } else {
                Seq::<u64>::empty()
            },
    )
}

/// The contract storage that records stand for.
pub open spec fn records_view(r: StateRecords) -> ContractView {
    let slots = r.slots@;
    let n = slots.len();
    ContractView {
        owner: r.owner,
        paused: r.paused,
        contract_cut_percentage: r.contract_cut_percentage@,
        last_valid_service_id: n,
        services: Map::new(
            |id: u64| 1 <= id <= n && slots[id - 1].service is Some,
            |id: u64| slots[id - 1].service->0@,
        ),
        discounts: Map::new(
            |id: u64| 1 <= id <= n && slots[id - 1].discount is Some,
            |id: u64| slots[id - 1].discount->0@,
        ),
        subscriptions: Map::new(
            |k: SubId|
                1 <= k.service_id <= n && entries_map(
                    slots[k.service_id - 1].subscriptions@,
                ).contains_key(k.address),
            |k: SubId| entries_map(slots[k.service_id - 1].subscriptions@)[k.address]@,
        ),
        subscribers: Map::new(
            |id: u64| true,
            |id: u64|
                if 1 <= id <= n {
                    slots[id - 1].subscribers@
                } else {
                    Seq::<Address>::empty()
                },
        ),
        services_by_address: index_records_view(r.services_by_address@),
        subscriptions_by_address: index_records_view(r.subscriptions_by_address@),
        discounts_by_address: index_records_view(r.discounts_by_address@),
    }
}

/// A stored slot and its record hold the same data.
spec fn slot_matches(rec: SlotRecord, slot: ServiceSlot) -> bool {
    &&& rec.service == slot.service
    &&& rec.discount == slot.discount
    &&& rec.subscribers == slot.subscribers
    &&& entries_unique(rec.subscriptions@)
    &&& entries_map(rec.subscriptions@) == slot.subscriptions.map()
}

proof fn lemma_index_records(e: Seq<(Address, Vec<u64>)>, m: AddressMap<Vec<u64>>)
    requires
        entries_unique(e),
        entries_map(e) == m.map(),
        m.wf(),
    ensures
        index_records_wf(e) == index_wf(m),
        index_records_view(e) == index_view(m),
{
    if index_records_wf(e) {
        assert forall|a: Address| #[trigger] m.map().contains_key(a) implies m.map()[a]@.no_duplicates() by {
            let i = choose|i: int| 0 <= i < e.len() && e[i].0 == a;
            lemma_entries_map_at(e, i);
            assert(e[i].1@.no_duplicates());
        }
    }
    if index_wf(m) {
        assert forall|i: int| 0 <= i < e.len() implies (#[trigger] e[i]).1@.no_duplicates() by {
            lemma_entries_map_at(e, i);
            assert(m.map().contains_key(e[i].0));
        }
    }
    assert(index_records_view(e) =~= index_view(m));
}

fn index_into_records(m: AddressMap<Vec<u64>>) -> (res: Vec<(Address, Vec<u64>)>)
    requires
        index_wf(m),
    ensures
        index_records_wf(res@),
        index_records_view(res@) == index_view(m),
{
    let ghost gm = m;
    let res = m.into_entries();
    proof {
        lemma_index_records(res@, gm);
    }
    res
}

fn index_from_records(e: Vec<(Address, Vec<u64>)>) -> (res: Option<AddressMap<Vec<u64>>>)
    ensures
        res is Some <==> index_records_wf(e@),
        res matches Some(m) ==> index_wf(m) && index_view(m) == index_records_view(e@),
{
    let ghost ge = e@;
    match AddressMap::from_entries(e) {
        None => None,
        Some(m) => {
            proof {
                lemma_index_records(ge, m);
            }
            if index_lists_distinct(&m) {
                Some(m)
            } else {
                None
            }
        },
    }
}

/// Whether every id list of an index is free of duplicates.
fn index_lists_distinct(m: &AddressMap<Vec<u64>>) -> (res: bool)
    requires
        m.wf(),
    ensures
        res == index_wf(*m),
{
    let ghost gm = *m;
    let entries = m.entries_ref();
    let mut i: usize = 0;
    while i < entries.len()
        invariant
            entries_unique(entries@),
            entries_map(entries@) == gm.map(),
            gm.wf(),
            gm == *m,
            i <= entries@.len(),
            forall|k: int| 0 <= k < i ==> (#[trigger] entries@[k]).1@.no_duplicates(),
        decreases entries@.len() - i,
    {
        if !ids_distinct(&entries[i].1) {
            proof {
                assert(!(entries@[i as int]).1@.no_duplicates());
                lemma_index_records(entries@, gm);
            }
            return false;
        }
        i = i + 1;
    }
    proof {
        lemma_index_records(entries@, gm);
    }
    true
}

/// Whether a list of ids has no duplicates.
fn ids_distinct(ids: &Vec<u64>) -> (res: bool)
    ensures
        res == ids@.no_duplicates(),
{
    let mut i: usize = 0;
    while i < ids.len()
        invariant
            i <= ids@.len(),
            forall|x: int, y: int| 0 <= x < i && 0 <= y < i && x != y ==> ids@[x] != ids@[y],
        decreases ids@.len() - i,
    {
        let mut j: usize = 0;
        while j < i
            invariant
                i < ids@.len(),
                j <= i,
                forall|y: int| 0 <= y < j ==> ids@[y] != ids@[i as int],
            decreases i - j,
        {
            if ids[j] == ids[i] {
                return false;
            }
            j = j + 1;
        }
        i = i + 1;
    }
    true
}

/// Whether a list of addresses has no duplicates.
fn addresses_distinct(addrs: &Vec<Address>) -> (res: bool)
    ensures
        res == addrs@.no_duplicates(),
{
    let mut i: usize = 0;
    while i < addrs.len()
        invariant
            i <= addrs@.len(),
            forall|x: int, y: int| 0 <= x < i && 0 <= y < i && x != y ==> addrs@[x] != addrs@[y],
        decreases addrs@.len() - i,
    {
        let mut j: usize = 0;
        while j < i
            invariant
                i < addrs@.len(),
                j <= i,
                forall|y: int| 0 <= y < j ==> addrs@[y] != addrs@[i as int],
            decreases i - j,
        {
            if addrs[j] == addrs[i] {
                return false;
            }
            j = j + 1;
        }
        i = i + 1;
    }
    true
}

impl NiftySubsState {
    /// The storage as plain records, for persisting it between calls.
    pub fn into_records(self) -> (res: StateRecords)
        ensures
            records_wf(res),
            records_view(res) == self@,
    {
        proof {
            use_type_invariant(&self);
        }
        let ghost v = self@;
        let ghost orig = self.slots@;
        let NiftySubsState {
            owner,
            paused,
            contract_cut_percentage,
            slots,
            services_by_address,
            subscriptions_by_address,
            discounts_by_address,
        } = self;
        let mut slots = slots;
        let mut out: Vec<SlotRecord> = Vec::new();
        let n = slots.len();
        let mut i: usize = 0;
        while i < n
            invariant
                n == orig.len(),
                slots@.len() == n,
                out@.len() == i,
                i <= n,
                slots_wf(orig),
                forall|j: int| i <= j < n ==> slots@[j] == orig[j],
                forall|j: int| 0 <= j < i ==> slot_matches(#[trigger] out@[j], orig[j]),
            decreases n - i,
        {
            let mut slot = ServiceSlot::empty();
            slots.set_and_swap(i, &mut slot);
            proof {
                assert(slot == orig[i as int]);
                assert(orig[i as int].wf());
            }
            let ServiceSlot { service, discount, subscribers, subscriptions } = slot;
            let entries = subscriptions.into_entries();
            let rec = SlotRecord { service, discount, subscribers, subscriptions: entries };
            let ghost prev = out@;
            out.push(rec);
            proof {
                assert forall|j: int| 0 <= j < i + 1 implies slot_matches(#[trigger] out@[j], orig[j]) by {
                    if j < i {
                        assert(out@[j] == prev[j]);
                    }
                }
            }
            i = i + 1;
        }
        let res = StateRecords {
            owner,
            paused,
            contract_cut_percentage,
            slots: out,
            services_by_address: index_into_records(services_by_address),
            subscriptions_by_address: index_into_records(subscriptions_by_address),
            discounts_by_address: index_into_records(discounts_by_address),
        };
        proof {
            assert forall|j: int| 0 <= j < res.slots@.len() implies slot_record_wf(
                #[trigger] res.slots@[j],
            ) by {
                assert(slot_matches(res.slots@[j], orig[j]));
                assert(orig[j].wf());
            }
            let rv = records_view(res);
            assert forall|j: int| 0 <= j < n implies slot_matches(#[trigger] res.slots@[j], orig[j]) by {}
            assert(rv.services =~= v.services);
            assert(rv.discounts =~= v.discounts);
            assert(rv.subscriptions =~= v.subscriptions);
            assert(rv.subscribers =~= v.subscribers);
        }
        res
    }

    /// Storage rebuilt from records; refused with `MalformedStorage` unless
    /// the records are well formed (see `records_wf`).
    pub fn from_records(records: StateRecords) -> (res: Result<NiftySubsState, Error>)
        ensures
            res is Ok <==> records_wf(records),
            match res {
                Ok(s) => s@ == records_view(records),
                Err(e) => e == Error::MalformedStorage,
            },
    {
        let ghost r = records;
        let ghost rslots = records.slots@;
        let StateRecords {
            owner,
            paused,
            contract_cut_percentage,
            slots,
            services_by_address,
            subscriptions_by_address,
            discounts_by_address,
        } = records;
        let mut slots = slots;
        let mut out: Vec<ServiceSlot> = Vec::new();
        let n = slots.len();
        let mut i: usize = 0;
        while i < n
            invariant
                n == rslots.len(),
                rslots == r.slots@,
                r == records,
                slots@.len() == n,
                out@.len() == i,
                i <= n,
                forall|j: int| i <= j < n ==> slots@[j] == rslots[j],
                forall|j: int| 0 <= j < i ==> slot_record_wf(#[trigger] rslots[j]),
                forall|j: int| 0 <= j < i ==> slot_matches(rslots[j], #[trigger] out@[j]),
                forall|j: int| 0 <= j < i ==> (#[trigger] out@[j]).wf(),
            decreases n - i,
        {
            let mut rec = SlotRecord {
                service: None,
                discount: None,
                subscribers: Vec::new(),
                subscriptions: Vec::new(),
            };
            slots.set_and_swap(i, &mut rec);
            assert(rec == rslots[i as int]);
            let SlotRecord { service, discount, subscribers, subscriptions } = rec;
            if !addresses_distinct(&subscribers) {
                assert(!slot_record_wf(r.slots@[i as int]));
                return Err(Error::MalformedStorage);
            }
            let valid = match &service {
                Some(s) => !s.price.is_zero() && s.payment_period > 0 && (s.period_type
                    == PeriodType::Seconds || s.period_type == PeriodType::Epochs)
                    && s.service_name.len() <= MAX_TEXT_LEN && s.service_webpage.len()
                    <= MAX_TEXT_LEN,
                None => true,
            };
            if !valid {
                assert(!slot_record_wf(r.slots@[i as int]));
                return Err(Error::MalformedStorage);
            }
            let ghost entries = subscriptions@;
            let subscriptions = match AddressMap::from_entries(subscriptions) {
                Some(m) => m,
                None => {
                    assert(!entries_unique(entries));
                    assert(!slot_record_wf(r.slots@[i as int]));
                    return Err(Error::MalformedStorage);
                },
            };
            let slot = ServiceSlot { service, discount, subscribers, subscriptions };
            let ghost prev = out@;
            out.push(slot);
            proof {
                assert forall|j: int| 0 <= j < i + 1 implies slot_matches(
                    rslots[j],
                    #[trigger] out@[j],
                ) && out@[j].wf() by {
                    if j < i {
                        assert(out@[j] == prev[j]);
                    }
                }
            }
            i = i + 1;
        }
        let services_by_address = match index_from_records(services_by_address) {
            Some(m) => m,
            None => return Err(Error::MalformedStorage),
        };
        let subscriptions_by_address = match index_from_records(subscriptions_by_address) {
            Some(m) => m,
            None => return Err(Error::MalformedStorage),
        };
        let discounts_by_address = match index_from_records(discounts_by_address) {
            Some(m) => m,
            None => return Err(Error::MalformedStorage),
        };
        let res = NiftySubsState {
            owner,
            paused,
            contract_cut_percentage,
            slots: out,
            services_by_address,
            subscriptions_by_address,
            discounts_by_address,
        };
        proof {
            let rv = records_view(r);
            let v = res@;
            assert(v.services =~= rv.services);
            assert(v.discounts =~= rv.discounts);
            assert(v.subscriptions =~= rv.subscriptions);
            assert(v.subscribers =~= rv.subscribers);
        }
        Ok(res)
    }
}

} // verus!

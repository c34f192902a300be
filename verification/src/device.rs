//! Choosing the physical device and the queues of the logical device.

use vstd::prelude::*;
use crate::queue::{lemma_search_sound, QueueFamilyIndices, QueueFamilySearch};
use crate::swapchain::SwapChainSupportDetail;

verus! {

/// A device is suitable when it has a graphics family and a presentation
/// family, supports the required extensions, and its surface offers at least
/// one format and one presentation mode. The swapchain support is only
/// queried when the extensions are supported; without it the device is not
/// suitable.
pub open spec fn suitable_spec(
    indices: QueueFamilyIndices,
    extensions_supported: bool,
    swapchain_support: Option<&SwapChainSupportDetail>,
) -> bool {
    &&& indices.complete()
    &&& extensions_supported
    &&& match swapchain_support {
        Some(support) => support.adequate(),
        None => false,
    }
}

/// Suitability exactly: a device is suitable if and only if both queue roles
/// are filled, the extensions are supported, and its swapchain support offers
/// at least one format and one presentation mode; no other surface capability
/// matters.
pub proof fn lemma_suitability(
    indices: QueueFamilyIndices,
    extensions_supported: bool,
    swapchain_support: Option<&SwapChainSupportDetail>,
)
    ensures
        suitable_spec(indices, extensions_supported, swapchain_support) <==> {
            &&& indices.graphics_family is Some
            &&& indices.present_family is Some
            &&& extensions_supported
            &&& swapchain_support matches Some(support) && support.formats@.len() > 0
                && support.present_modes@.len() > 0
        },
{
}

/// Whether a physical device can run the renderer, from the queue families
/// found on it, whether it supports the required extensions, and its
/// swapchain support (queried only when the extensions are supported).
pub fn is_physical_device_suitable(
    indices: &QueueFamilyIndices,
    extensions_supported: bool,
    swapchain_support: Option<&SwapChainSupportDetail>,
) -> (r: bool)
    ensures
        r == suitable_spec(*indices, extensions_supported, swapchain_support),
        r <==> {
            &&& indices.graphics_family is Some
            &&& indices.present_family is Some
            &&& extensions_supported
            &&& swapchain_support matches Some(support) && support.formats@.len() > 0
                && support.present_modes@.len() > 0
        },
{
    proof {
        lemma_suitability(*indices, extensions_supported, swapchain_support);
    }
    let is_queue_family_supported = indices.is_complete();
    let is_swapchain_supported = if extensions_supported {
        match swapchain_support {
            Some(support) => support.is_adequate(),
            None => false,
        }
    } else {
        false
    };
    is_queue_family_supported && extensions_supported && is_swapchain_supported
}

/// A device found suitable from the choice of a queue family search has a
/// graphics family with queues and graphics support, and a presentation family
/// with queues whose answer was yes.
pub proof fn lemma_suitable_device_has_queues(
    search: QueueFamilySearch,
    extensions_supported: bool,
    swapchain_support: Option<&SwapChainSupportDetail>,
)
    requires
        search.wf(),
        suitable_spec(search.found_so_far(), extensions_supported, swapchain_support),
    ensures
        ({
            let g = search.found_so_far().graphics_family->0;
            &&& g < search.families().len()
            &&& search.families()[g as int].queue_count > 0
            &&& search.families()[g as int].graphics()
        }),
        ({
            let p = search.found_so_far().present_family->0;
            &&& p < search.answers().len()
            &&& search.families()[p as int].queue_count > 0
            &&& search.answers()[p as int]
        }),
        extensions_supported,
{
    lemma_search_sound(search);
}

/// The first of the first `k` devices that was found suitable.
pub open spec fn first_suitable(suitable: Seq<bool>, k: nat) -> Option<usize>
    decreases k,
{
    if k == 0 {
        None
    } else {
        match first_suitable(suitable, (k - 1) as nat) {
            Some(i) => Some(i),
            None => if suitable[k - 1] {
                Some((k - 1) as usize)
            } else {
                None
            },
        }
    }
}

/// The search for the first suitable device among those the instance
/// reports, in the order it reports them. Devices after the first suitable
/// one are not examined.
pub struct PhysicalDeviceSearch {
    device_count: usize,
    next: usize,
    chosen: Option<usize>,
    answers: Ghost<Seq<bool>>,
}

impl PhysicalDeviceSearch {
    pub closed spec fn device_count(self) -> nat {
        self.device_count as nat
    }

    /// Whether each device examined so far was suitable, in order.
    pub closed spec fn answers(self) -> Seq<bool> {
        self.answers@
    }

    pub closed spec fn wf(self) -> bool {
        &&& self.next <= self.device_count
        &&& self.answers@.len() == self.next
        &&& self.chosen == first_suitable(self.answers@, self.next as nat)
    }

    /// The device chosen so far.
    pub open spec fn chosen_so_far(self) -> Option<usize> {
        first_suitable(self.answers(), self.answers().len())
    }

    /// The device to examine next, or `None` once one was chosen or all were
    /// examined.
    pub open spec fn pending(self) -> Option<usize> {
        if self.chosen_so_far() is Some || self.answers().len() >= self.device_count() {
            None
        } else {
            Some(self.answers().len() as usize)
        }
    }

    pub fn new(device_count: usize) -> (s: PhysicalDeviceSearch)
        ensures
            s.wf(),
            s.device_count() == device_count,
            s.answers() == Seq::<bool>::empty(),
    {
        PhysicalDeviceSearch { device_count, next: 0, chosen: None, answers: Ghost(Seq::empty()) }
    }

    pub fn next_candidate(&self) -> (r: Option<usize>)
        requires
            self.wf(),
        ensures
            r == self.pending(),
    {
        if self.chosen.is_some() || self.next >= self.device_count {
            None
        } else {
            Some(self.next)
        }
    }

    /// Records whether the pending device is suitable.
    pub fn record_suitability(&mut self, suitable: bool)
        requires
            old(self).wf(),
            old(self).pending() is Some,
        ensures
            final(self).wf(),
            final(self).device_count() == old(self).device_count(),
            final(self).answers() == old(self).answers().push(suitable),
            final(self).chosen_so_far() == (if suitable {
                Some(old(self).answers().len() as usize)
            } else {
                None
            }),
    {
        let index = self.next;
        let ghost extended = self.answers@.push(suitable);
        proof {
            lemma_first_suitable_prefix(self.answers@, extended, index as nat);
        }
        if suitable {
            self.chosen = Some(index);
        }
        self.next = index + 1;
        self.answers = Ghost(extended);
    }

    /// The device chosen, if any.
    pub fn picked(&self) -> (r: Option<usize>)
        requires
            self.wf(),
        ensures
            r == self.chosen_so_far(),
    {
        self.chosen
    }
}

/// The first suitable device among the first `k` depends on the first `k`
/// answers only.
pub proof fn lemma_first_suitable_prefix(s1: Seq<bool>, s2: Seq<bool>, k: nat)
    requires
        k <= s1.len(),
        k <= s2.len(),
        forall|i: int| 0 <= i < k ==> s1[i] == s2[i],
    ensures
        first_suitable(s1, k) == first_suitable(s2, k),
    decreases k,
{
    if k > 0 {
        lemma_first_suitable_prefix(s1, s2, (k - 1) as nat);
    }
}

/// The device chosen is suitable and every device before it is not; when none
/// is chosen, none of the devices examined is suitable.
pub proof fn lemma_first_suitable_is_first(suitable: Seq<bool>, k: nat)
    requires
        k <= suitable.len(),
        k <= usize::MAX,
    ensures
        first_suitable(suitable, k) matches Some(i) ==> {
            &&& i < k
            &&& suitable[i as int]
            &&& forall|j: int| 0 <= j < i ==> !suitable[j]
        },
        first_suitable(suitable, k) is None ==> forall|j: int| 0 <= j < k ==> !suitable[j],
    decreases k,
{
    if k > 0 {
        lemma_first_suitable_is_first(suitable, (k - 1) as nat);
    }
}

/// A finished search has chosen the first suitable device of all, whatever
/// the devices not examined would have been found to be.
pub proof fn lemma_device_search_finished(search: PhysicalDeviceSearch, suitable: Seq<bool>)
    requires
        search.wf(),
        search.pending() is None,
        suitable.len() == search.device_count(),
        forall|i: int| 0 <= i < search.answers().len() ==> suitable[i] == search.answers()[i],
    ensures
        search.chosen_so_far() == first_suitable(suitable, suitable.len()),
{
    let k = search.answers().len();
    lemma_first_suitable_prefix(search.answers(), suitable, k);
    if first_suitable(suitable, k) is Some {
        lemma_first_suitable_stable(suitable, k, suitable.len());
    }
}

/// Once a device is chosen, later devices do not change the choice.
pub proof fn lemma_first_suitable_stable(suitable: Seq<bool>, k: nat, m: nat)
    requires
        k <= m,
        first_suitable(suitable, k) is Some,
    ensures
        first_suitable(suitable, m) == first_suitable(suitable, k),
    decreases m,
{
    if m > k {
        lemma_first_suitable_stable(suitable, k, (m - 1) as nat);
    }
}

/// The queue families the logical device gets one queue from each of: the
/// graphics family, and the presentation family when it is another one.
pub fn unique_queue_families(indices: &QueueFamilyIndices) -> (r: Vec<u32>)
    requires
        indices.complete(),
    ensures
        r@ == (if indices.graphics_family == indices.present_family {
            seq![indices.graphics_family->0]
        } else {
            seq![indices.graphics_family->0, indices.present_family->0]
        }),
        r@.to_set() == set![indices.graphics_family->0, indices.present_family->0],
        r@.no_duplicates(),
{
    let graphics = indices.graphics_family.unwrap();
    let present = indices.present_family.unwrap();
    let mut families: Vec<u32> = Vec::new();
    families.push(graphics);
    if present != graphics {
        families.push(present);
    }
    proof {
        let s = families@;
        assert(s.to_set() =~= set![graphics, present]) by {
            assert forall|x: u32| s.to_set().contains(x) <==> set![graphics, present].contains(x) by {
                if x == graphics {
                    assert(s[0] == x);
                }
                if x == present && present != graphics {
                    assert(s[1] == x);
                }
            }
        }
    }
    families
}

} // verus!

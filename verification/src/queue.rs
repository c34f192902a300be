//! Choosing the queue families for graphics work and for presentation.
//!
//! The queue family properties of a physical device are read once; whether a
//! family can present to the window surface is asked family by family, and
//! the asking stops as soon as both roles are filled. `QueueFamilySearch`
//! holds that scan: it says which family to ask about next, and records the
//! answer.

use vstd::prelude::*;

verus! {

/// The queue family chosen for graphics work and the one chosen for
/// presentation, where one was found.
#[derive(Clone, Copy, Debug, PartialEq, Eq)]
pub struct QueueFamilyIndices {
    pub graphics_family: Option<u32>,
    pub present_family: Option<u32>,
}

impl QueueFamilyIndices {
    /// Both roles are filled.
    pub open spec fn complete(self) -> bool {
        self.graphics_family is Some && self.present_family is Some
    }

    /// No family chosen yet.
    pub fn new() -> (r: QueueFamilyIndices)
        ensures
            r == empty_indices(),
    {
        QueueFamilyIndices { graphics_family: None, present_family: None }
    }

    pub fn is_complete(&self) -> (r: bool)
        ensures
            r == self.complete(),
    {
        self.graphics_family.is_some() && self.present_family.is_some()
    }
}

/// `VK_QUEUE_GRAPHICS_BIT`.
pub const QUEUE_GRAPHICS_BIT: u32 = 1;

/// What the selection reads of a queue family's properties: its capability
/// flags (`VkQueueFlags`) and how many queues it has.
#[derive(Clone, Copy, Debug, PartialEq, Eq)]
pub struct QueueFamily {
    pub queue_flags: u32,
    pub queue_count: u32,
}

impl QueueFamily {
    /// The family's flags include graphics.
    pub open spec fn graphics(self) -> bool {
        self.queue_flags & QUEUE_GRAPHICS_BIT != 0
    }

    pub fn supports_graphics(&self) -> (r: bool)
        ensures
            r == self.graphics(),
    {
        self.queue_flags & QUEUE_GRAPHICS_BIT != 0
    }
}

pub open spec fn empty_indices() -> QueueFamilyIndices {
    QueueFamilyIndices { graphics_family: None, present_family: None }
}

/// The choice after looking at family `index`: a family with at least one
/// queue takes the graphics role if it supports graphics, and the
/// presentation role if it can present to the surface. A later family
/// replaces an earlier one in either role.
pub open spec fn record_family(
    acc: QueueFamilyIndices,
    index: u32,
    family: QueueFamily,
    present_support: bool,
) -> QueueFamilyIndices {
    QueueFamilyIndices {
        graphics_family: if family.queue_count > 0 && family.graphics() {
            Some(index)
        } else {
            acc.graphics_family
        },
        present_family: if family.queue_count > 0 && present_support {
            Some(index)
        } else {
            acc.present_family
        },
    }
}

/// The choice after the first `k` families, given the presentation answer
/// `support[i]` for each family `i`; the scan stops at the first family after
/// which both roles are filled.
pub open spec fn scan_queue_families(
    families: Seq<QueueFamily>,
    support: Seq<bool>,
    k: nat,
) -> QueueFamilyIndices
    decreases k,
{
    if k == 0 {
        empty_indices()
    } else {
        let prev = scan_queue_families(families, support, (k - 1) as nat);
        if prev.complete() {
            prev
        } else {
            record_family(prev, (k - 1) as u32, families[k - 1], support[k - 1])
        }
    }
}

/// The scan over all families of a device.
pub open spec fn find_queue_family_spec(
    families: Seq<QueueFamily>,
    support: Seq<bool>,
) -> QueueFamilyIndices {
    scan_queue_families(families, support, families.len())
}

/// The scan in progress over one device's queue families.
pub struct QueueFamilySearch {
    families: Vec<QueueFamily>,
    next: usize,
    found: QueueFamilyIndices,
    answers: Ghost<Seq<bool>>,
}

impl QueueFamilySearch {
    /// The families being scanned.
    pub closed spec fn families(self) -> Seq<QueueFamily> {
        self.families@
    }

    /// The presentation answers recorded so far, one per family, in order.
    pub closed spec fn answers(self) -> Seq<bool> {
        self.answers@
    }

    pub closed spec fn wf(self) -> bool {
        &&& self.families@.len() <= u32::MAX
        &&& self.next <= self.families@.len()
        &&& self.answers@.len() == self.next
        &&& self.found == scan_queue_families(self.families@, self.answers@, self.next as nat)
    }

    /// The choice made from the answers recorded so far.
    pub open spec fn found_so_far(self) -> QueueFamilyIndices {
        scan_queue_families(self.families(), self.answers(), self.answers().len())
    }

    /// The family to ask about next, or `None` once both roles are filled or
    /// every family has been asked about.
    pub open spec fn pending(self) -> Option<u32> {
        if self.found_so_far().complete() || self.answers().len() >= self.families().len() {
            None
        } else {
            Some(self.answers().len() as u32)
        }
    }

    /// Starts the scan over `families` (a device reports at most `u32::MAX`
    /// of them).
    pub fn new(families: Vec<QueueFamily>) -> (s: QueueFamilySearch)
        requires
            families@.len() <= u32::MAX,
        ensures
            s.wf(),
            s.families() == families@,
            s.answers() == Seq::<bool>::empty(),
            s.found_so_far() == empty_indices(),
    {
        QueueFamilySearch {
            families,
            next: 0,
            found: QueueFamilyIndices::new(),
            answers: Ghost(Seq::empty()),
        }
    }

    /// The index of the family whose presentation support is to be asked next.
    pub fn next_query(&self) -> (r: Option<u32>)
        requires
            self.wf(),
        ensures
            r == self.pending(),
    {
        if self.found.is_complete() || self.next >= self.families.len() {
            None
        } else {
            Some(self.next as u32)
        }
    }

    /// Records whether the pending family can present to the surface, and
    /// updates the choice as `record_family` says.
    pub fn record_support(&mut self, present_support: bool)
        requires
            old(self).wf(),
            old(self).pending() is Some,
        ensures
            final(self).wf(),
            final(self).families() == old(self).families(),
            final(self).answers() == old(self).answers().push(present_support),
            final(self).found_so_far() == record_family(
                old(self).found_so_far(),
                old(self).answers().len() as u32,
                old(self).families()[old(self).answers().len() as int],
                present_support,
            ),
            ({
                let index = old(self).answers().len();
                let family = old(self).families()[index as int];
                &&& (family.queue_count > 0 && family.queue_flags & QUEUE_GRAPHICS_BIT != 0)
                    ==> final(self).found_so_far().graphics_family == Some(index as u32)
                &&& !(family.queue_count > 0 && family.queue_flags & QUEUE_GRAPHICS_BIT != 0)
                    ==> final(self).found_so_far().graphics_family
                    == old(self).found_so_far().graphics_family
                &&& (family.queue_count > 0 && present_support)
                    ==> final(self).found_so_far().present_family == Some(index as u32)
                &&& !(family.queue_count > 0 && present_support)
                    ==> final(self).found_so_far().present_family
                    == old(self).found_so_far().present_family
            }),
    {
        let index = self.next;
        let family = self.families[index];
        let ghost prev = self.answers@;
        let ghost extended = prev.push(present_support);
        proof {
            lemma_scan_prefix(self.families@, prev, extended, index as nat);
        }
        let graphics_family = if family.queue_count > 0 && family.supports_graphics() {
            Some(index as u32)
        } else {
            self.found.graphics_family
        };
        let present_family = if family.queue_count > 0 && present_support {
            Some(index as u32)
        } else {
            self.found.present_family
        };
        self.found = QueueFamilyIndices { graphics_family, present_family };
        self.next = index + 1;
        self.answers = Ghost(extended);
    }

    /// The choice made so far; once `next_query` gives `None`, the choice of
    /// the whole scan.
    pub fn result(&self) -> (r: QueueFamilyIndices)
        requires
            self.wf(),
        ensures
            r == self.found_so_far(),
    {
        self.found
    }
}

/// A fresh choice is not complete: neither role is filled.
pub proof fn lemma_new_is_incomplete()
    ensures
        !empty_indices().complete(),
        empty_indices().graphics_family is None,
        empty_indices().present_family is None,
{
}

/// The scan up to family `k` depends on the first `k` presentation answers
/// only.
pub proof fn lemma_scan_prefix(families: Seq<QueueFamily>, s1: Seq<bool>, s2: Seq<bool>, k: nat)
    requires
        k <= s1.len(),
        k <= s2.len(),
        forall|i: int| 0 <= i < k ==> s1[i] == s2[i],
    ensures
        scan_queue_families(families, s1, k) == scan_queue_families(families, s2, k),
    decreases k,
{
    if k > 0 {
        lemma_scan_prefix(families, s1, s2, (k - 1) as nat);
    }
}

/// Once both roles are filled the choice no longer changes.
pub proof fn lemma_scan_stable(families: Seq<QueueFamily>, support: Seq<bool>, k: nat, m: nat)
    requires
        k <= m,
        scan_queue_families(families, support, k).complete(),
    ensures
        scan_queue_families(families, support, m) == scan_queue_families(families, support, k),
    decreases m,
{
    if m > k {
        lemma_scan_stable(families, support, k, (m - 1) as nat);
    }
}

/// A family chosen for a role is one of the families scanned, has at least
/// one queue, and supports that role: graphics for the graphics role, and a
/// yes from the surface for the presentation role.
pub proof fn lemma_scan_sound(families: Seq<QueueFamily>, support: Seq<bool>, k: nat)
    requires
        k <= families.len(),
        k <= support.len(),
        k <= u32::MAX + 1,
    ensures
        scan_queue_families(families, support, k).graphics_family matches Some(g) ==> {
            &&& g < k
            &&& families[g as int].queue_count > 0
            &&& families[g as int].graphics()
        },
        scan_queue_families(families, support, k).present_family matches Some(p) ==> {
            &&& p < k
            &&& families[p as int].queue_count > 0
            &&& support[p as int]
        },
    decreases k,
{
    if k > 0 {
        lemma_scan_sound(families, support, (k - 1) as nat);
    }
}

/// The choice a search has made so far is sound: the graphics family is one
/// asked about, with queues and graphics support; the presentation family is
/// one asked about, with queues, that answered yes.
pub proof fn lemma_search_sound(search: QueueFamilySearch)
    requires
        search.wf(),
    ensures
        search.answers().len() <= search.families().len(),
        search.found_so_far().graphics_family matches Some(g) ==> {
            &&& g < search.answers().len()
            &&& search.families()[g as int].queue_count > 0
            &&& search.families()[g as int].graphics()
        },
        search.found_so_far().present_family matches Some(p) ==> {
            &&& p < search.answers().len()
            &&& search.families()[p as int].queue_count > 0
            &&& search.answers()[p as int]
        },
{
    lemma_scan_sound(search.families(), search.answers(), search.answers().len());
}

/// Completeness of the scan: a role stays empty only when no family scanned
/// could take it. A family with at least one queue whose flags have the
/// graphics bit (whatever its other bits) takes the graphics role, and one with
/// at least one queue that can present takes the presentation role. While a
/// role is still open, the family holding the other role is the last scanned
/// family able to take it.
pub proof fn lemma_scan_complete(families: Seq<QueueFamily>, support: Seq<bool>, k: nat)
    requires
        k <= families.len(),
        k <= support.len(),
        k <= u32::MAX + 1,
    ensures
        scan_queue_families(families, support, k).graphics_family is None ==> forall|i: int|
            0 <= i < k ==> !(families[i].queue_count > 0 && families[i].queue_flags
                & QUEUE_GRAPHICS_BIT != 0),
        scan_queue_families(families, support, k).present_family is None ==> forall|i: int|
            0 <= i < k ==> !(families[i].queue_count > 0 && support[i]),
        !scan_queue_families(families, support, k).complete() ==> {
            &&& scan_queue_families(families, support, k).graphics_family matches Some(g)
                ==> forall|i: int|
                g < i < k ==> !(families[i].queue_count > 0 && families[i].queue_flags
                    & QUEUE_GRAPHICS_BIT != 0)
            &&& scan_queue_families(families, support, k).present_family matches Some(p)
                ==> forall|i: int| p < i < k ==> !(families[i].queue_count > 0 && support[i])
        },
    decreases k,
{
    if k > 0 {
        lemma_scan_complete(families, support, (k - 1) as nat);
    }
}

/// The same for a search: once its result has an empty role, no family it
/// asked about could take that role.
pub proof fn lemma_search_complete(search: QueueFamilySearch)
    requires
        search.wf(),
    ensures
        search.found_so_far().graphics_family is None ==> forall|i: int|
            0 <= i < search.answers().len() ==> !(search.families()[i].queue_count > 0
                && search.families()[i].queue_flags & QUEUE_GRAPHICS_BIT != 0),
        search.found_so_far().present_family is None ==> forall|i: int|
            0 <= i < search.answers().len() ==> !(search.families()[i].queue_count > 0
                && search.answers()[i]),
{
    lemma_scan_complete(search.families(), search.answers(), search.answers().len());
}

/// A search that has nothing more to ask has made the choice that a scan over
/// every family would make, whatever the families not asked about would have
/// answered.
pub proof fn lemma_search_finished(search: QueueFamilySearch, support: Seq<bool>)
    requires
        search.wf(),
        search.pending() is None,
        support.len() == search.families().len(),
        forall|i: int| 0 <= i < search.answers().len() ==> support[i] == search.answers()[i],
    ensures
        search.found_so_far() == find_queue_family_spec(search.families(), support),
{
    let fams = search.families();
    let k = search.answers().len();
    lemma_scan_prefix(fams, search.answers(), support, k);
    if scan_queue_families(fams, support, k).complete() {
        lemma_scan_stable(fams, support, k, fams.len());
    }
}

} // verus!

use antithesis::queue::{QueueFamily, QueueFamilyIndices, QueueFamilySearch, QUEUE_GRAPHICS_BIT};

fn family(queue_flags: u32, queue_count: u32) -> QueueFamily {
    QueueFamily { queue_flags, queue_count }
}

/// Runs the search with the given presentation answers and returns the
/// choice and the families that were asked about.
fn run_search(families: Vec<QueueFamily>, support: &[bool]) -> (QueueFamilyIndices, Vec<u32>) {
    let mut search = QueueFamilySearch::new(families);
    let mut asked = Vec::new();
    while let Some(index) = search.next_query() {
        asked.push(index);
        search.record_support(support[index as usize]);
    }
    (search.result(), asked)
}

#[test]
fn new_indices_are_empty_and_incomplete() {
    let indices = QueueFamilyIndices::new();
    assert_eq!(indices.graphics_family, None);
    assert_eq!(indices.present_family, None);
    assert!(!indices.is_complete());
}

#[test]
fn complete_needs_both_roles() {
    let only_graphics = QueueFamilyIndices { graphics_family: Some(0), present_family: None };
    let only_present = QueueFamilyIndices { graphics_family: None, present_family: Some(2) };
    let both = QueueFamilyIndices { graphics_family: Some(1), present_family: Some(1) };
    assert!(!only_graphics.is_complete());
    assert!(!only_present.is_complete());
    assert!(both.is_complete());
}

#[test]
fn graphics_bit_is_vulkans() {
    assert_eq!(QUEUE_GRAPHICS_BIT, ash::vk::QueueFlags::GRAPHICS.as_raw());
    assert!(family(QUEUE_GRAPHICS_BIT | 4, 1).supports_graphics());
    assert!(!family(2 | 4, 1).supports_graphics());
}

#[test]
fn one_family_for_both_roles() {
    let (indices, asked) = run_search(vec![family(QUEUE_GRAPHICS_BIT, 16)], &[true]);
    assert_eq!(indices, QueueFamilyIndices { graphics_family: Some(0), present_family: Some(0) });
    assert_eq!(asked, vec![0]);
}

#[test]
fn search_stops_once_both_roles_are_filled() {
    let families = vec![family(2, 1), family(QUEUE_GRAPHICS_BIT, 1), family(QUEUE_GRAPHICS_BIT, 4)];
    let (indices, asked) = run_search(families, &[true, false, true]);
    assert_eq!(indices, QueueFamilyIndices { graphics_family: Some(1), present_family: Some(0) });
    assert_eq!(asked, vec![0, 1]);
}

#[test]
fn later_family_takes_over_a_role_until_complete() {
    let families = vec![family(QUEUE_GRAPHICS_BIT, 1), family(QUEUE_GRAPHICS_BIT, 1)];
    let (indices, asked) = run_search(families, &[false, true]);
    assert_eq!(indices, QueueFamilyIndices { graphics_family: Some(1), present_family: Some(1) });
    assert_eq!(asked, vec![0, 1]);
}

#[test]
fn family_without_queues_takes_no_role() {
    let families = vec![family(QUEUE_GRAPHICS_BIT, 0), family(0, 2)];
    let (indices, asked) = run_search(families, &[true, false]);
    assert_eq!(indices, QueueFamilyIndices { graphics_family: None, present_family: None });
    assert_eq!(asked, vec![0, 1]);
    assert!(!indices.is_complete());
}

#[test]
fn every_family_is_asked_when_a_role_stays_empty() {
    let families = vec![family(QUEUE_GRAPHICS_BIT, 1), family(0, 1), family(0, 1)];
    let (indices, asked) = run_search(families, &[false, false, false]);
    assert_eq!(indices, QueueFamilyIndices { graphics_family: Some(0), present_family: None });
    assert_eq!(asked, vec![0, 1, 2]);
}

#[test]
fn no_families_no_questions() {
    let (indices, asked) = run_search(Vec::new(), &[]);
    assert_eq!(indices, QueueFamilyIndices::new());
    assert!(asked.is_empty());
}

#[test]
fn record_support_updates_the_choice_step_by_step() {
    let mut search = QueueFamilySearch::new(vec![family(QUEUE_GRAPHICS_BIT, 1), family(0, 1)]);
    assert_eq!(search.next_query(), Some(0));
    search.record_support(false);
    assert_eq!(search.result(), QueueFamilyIndices { graphics_family: Some(0), present_family: None });
    assert_eq!(search.next_query(), Some(1));
    search.record_support(true);
    assert_eq!(search.result(), QueueFamilyIndices { graphics_family: Some(0), present_family: Some(1) });
    assert_eq!(search.next_query(), None);
}

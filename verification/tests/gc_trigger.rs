use mmtk::util::heap::gc_trigger::{
    FixedHeapSizeTrigger, GCTrigger, GCTriggerPolicy, MemBalancerTrigger, TriggerPolicy,
};
use mmtk::util::options::{GCTriggerSelector, Options};
use mmtk::util::test_util::mock_vm::MockPlan;

fn plan(reserved: usize) -> MockPlan {
    MockPlan {
        reserved_pages: reserved,
        mature_reserved_pages: reserved,
        collection_reserved_pages: 5,
        generational: false,
        nursery_collection: false,
        collection_threshold: 100,
        requested: false,
    }
}

#[test]
fn fixed_heap() {
    let options = Options { gc_trigger: GCTriggerSelector::FixedHeapSize(100 * 4096 + 4095) };
    let mut t: GCTrigger<MockPlan> = GCTrigger::new(&options, 0);
    match &t.policy {
        TriggerPolicy::Fixed(p) => {
            assert_eq!(p.get_heap_size_in_pages(), 100);
            assert!(!p.can_heap_size_grow());
        }
        TriggerPolicy::MemBalancer(_) => panic!("wrong policy"),
    }
    t.set_plan(plan(100));
    assert!(!t.is_heap_full());
    assert!(!t.poll(false, None));
    assert!(!t.plan.unwrap().requested);
    assert!(t.poll(true, Some("immix")));
    assert!(t.plan.unwrap().requested);
    t.set_plan(plan(101));
    assert!(t.is_heap_full());
    assert!(t.poll(false, None));
    // It does not care for collections.
    t.policy.on_gc_start(&plan(0), 1);
    t.policy.on_gc_release(&plan(0));
    assert!(t.policy.on_gc_end(&plan(0), 2).is_none());
    assert_eq!(FixedHeapSizeTrigger { total_pages: 3 }.get_heap_size_in_pages(), 3);
}

#[test]
fn dynamic_heap_starts_with_its_minimum() {
    let options = Options { gc_trigger: GCTriggerSelector::DynamicHeapSize(10 * 4096, 30 * 4096) };
    let mut t: GCTrigger<MockPlan> = GCTrigger::new(&options, 0);
    match &mut t.policy {
        TriggerPolicy::Fixed(_) => panic!("wrong policy"),
        TriggerPolicy::MemBalancer(p) => {
            assert_eq!(p.get_heap_size_in_pages(), 10);
            assert!(p.can_heap_size_grow());
            assert!(p.is_heap_full(&plan(11)));
            assert!(!p.is_heap_full(&plan(10)));
            assert!(p.is_gc_required(true, None, &plan(0)));
            // 8 live pages, 7 more by the estimate, 5 for copies.
            p.compute_new_heap_limit(8, 5, 7);
            assert_eq!(p.get_heap_size_in_pages(), 20);
            p.compute_new_heap_limit(8, 5, 1000);
            assert_eq!(p.get_heap_size_in_pages(), 30);
            assert!(!p.can_heap_size_grow());
            p.compute_new_heap_limit(1, 2, 3);
            assert_eq!(p.get_heap_size_in_pages(), 10);
        }
    }
    t.set_plan(plan(11));
    assert!(t.is_heap_full());
}

#[test]
fn statistics_of_a_collection() {
    let mut t = MemBalancerTrigger::new(10, 1000, 1000);
    t.on_gc_start(&plan(50), 1500);
    t.on_gc_release(&plan(48));
    let input = t.on_gc_end(&plan(30), 1600).unwrap();
    assert_eq!(input.live, 30);
    assert_eq!(input.extra_reserve, 5);
    assert!(input.stats.prev.is_none());
    assert_eq!(input.stats.current.allocation_pages, 50);
    assert_eq!(input.stats.current.allocation_time, 500);
    assert_eq!(input.stats.current.collection_pages, 18);
    assert_eq!(input.stats.current.collection_time, 100);
    assert_eq!(input.stats.gc_end_live_pages, 30);
    assert_eq!(t.stats().gc_end_live_pages, 30);
    t.compute_new_heap_limit(input.live, input.extra_reserve, 40);
    assert_eq!(t.get_heap_size_in_pages(), 75);
    assert_eq!(t.stats().current.allocation_pages, 0);
    assert_eq!(t.stats().prev.unwrap().allocation_pages, 50);
    // The next one is measured from the end of this one, and smoothed by it.
    t.on_gc_start(&plan(45), 1700);
    t.on_gc_release(&plan(45));
    let input = t.on_gc_end(&plan(45), 1650).unwrap();
    let prev = input.stats.prev.unwrap();
    assert_eq!(prev.allocation_pages, 50);
    assert_eq!(prev.collection_time, 100);
    assert_eq!(input.stats.current.allocation_pages, 15);
    assert_eq!(input.stats.current.allocation_time, 100);
    assert_eq!(input.stats.current.collection_pages, 0);
    // Time does not run backwards.
    assert_eq!(input.stats.current.collection_time, 0);
}

#[test]
fn statistics_of_generational_plans() {
    let mut t = MemBalancerTrigger::new(10, 1000, 0);
    let mut p = plan(70);
    p.generational = true;
    p.mature_reserved_pages = 40;
    p.nursery_collection = true;
    t.on_gc_start(&p, 10);
    t.on_gc_release(&p);
    // A collection of new objects is not estimated by.
    assert!(t.on_gc_end(&p, 20).is_none());
    p.nursery_collection = false;
    t.on_gc_start(&p, 30);
    t.on_gc_release(&p);
    p.mature_reserved_pages = 25;
    let input = t.on_gc_end(&p, 40).unwrap();
    assert_eq!(input.live, 25);
    assert_eq!(input.stats.current.allocation_pages, 40);
    assert_eq!(input.stats.current.collection_pages, 15);
    assert_eq!(input.stats.current.allocation_time, 20);
    assert_eq!(input.stats.current.collection_time, 20);
}

#[test]
fn dynamic_heap_with_a_minimum_above_its_maximum() {
    let options = Options { gc_trigger: GCTriggerSelector::DynamicHeapSize(30 * 4096, 10 * 4096) };
    let mut t: GCTrigger<MockPlan> = GCTrigger::new(&options, 0);
    t.set_plan(plan(30));
    assert!(!t.is_heap_full());
    t.set_plan(plan(31));
    assert!(t.is_heap_full());
    assert!(!t.poll(false, None));
    assert!(t.poll(true, None));
    t.policy.on_gc_start(&plan(31), 5);
    t.policy.on_gc_release(&plan(31));
    assert_eq!(t.policy.on_gc_end(&plan(20), 9).unwrap().live, 20);
    match &t.policy {
        TriggerPolicy::Fixed(_) => panic!("wrong policy"),
        TriggerPolicy::MemBalancer(p) => {
            assert_eq!(p.min_heap_size_in_pages(), 30);
            assert_eq!(p.max_heap_size_in_pages(), 10);
            assert_eq!(p.get_heap_size_in_pages(), 30);
            assert!(!p.can_heap_size_grow());
        }
    }
}

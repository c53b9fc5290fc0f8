use pandagen::resources::{
    CpuTicks, MemoryUnits, MessageCount, PipelineStages, ResourceBudget, ResourceDelta,
    ResourceExceeded, ResourceUsage, StorageOps,
};

#[test]
fn test_cpu_ticks_arithmetic() {
    let a = CpuTicks::new(100);
    let b = CpuTicks::new(50);

    assert_eq!(a.checked_add(b), Some(CpuTicks::new(150)));
    assert_eq!(a.checked_sub(b), Some(CpuTicks::new(50)));
    assert_eq!(b.checked_sub(a), None); // Would underflow

    assert_eq!(a.saturating_add(b), CpuTicks::new(150));
    assert_eq!(b.saturating_sub(a), CpuTicks::zero());
}

#[test]
fn test_cpu_ticks_overflow() {
    let max = CpuTicks::new(u64::MAX);
    let one = CpuTicks::new(1);

    assert_eq!(max.checked_add(one), None);
    assert_eq!(max.saturating_add(one), max);
}

#[test]
fn test_resource_budget_unlimited() {
    let budget = ResourceBudget::unlimited();
    assert_eq!(budget.cpu_ticks, None);
    assert_eq!(budget.message_count, None);
}

#[test]
fn test_resource_budget_zero() {
    let budget = ResourceBudget::zero();
    assert_eq!(budget.cpu_ticks, Some(CpuTicks::zero()));
    assert_eq!(budget.message_count, Some(MessageCount::zero()));
}

#[test]
fn test_resource_budget_builder() {
    let budget = ResourceBudget::unlimited()
        .with_cpu_ticks(CpuTicks::new(1000))
        .with_message_count(MessageCount::new(50));

    assert_eq!(budget.cpu_ticks, Some(CpuTicks::new(1000)));
    assert_eq!(budget.message_count, Some(MessageCount::new(50)));
    assert_eq!(budget.memory_units, None);
}

#[test]
fn test_resource_budget_subset_all_unlimited() {
    let budget1 = ResourceBudget::unlimited();
    let budget2 = ResourceBudget::unlimited();
    assert!(budget1.is_subset_of(&budget2));
    assert!(budget2.is_subset_of(&budget1));
}

#[test]
fn test_resource_budget_subset_child_limited() {
    let parent = ResourceBudget::unlimited()
        .with_cpu_ticks(CpuTicks::new(1000));
    let child = ResourceBudget::unlimited()
        .with_cpu_ticks(CpuTicks::new(500));

    assert!(child.is_subset_of(&parent));
    assert!(!parent.is_subset_of(&child));
}

#[test]
fn test_resource_budget_subset_equal() {
    let budget1 = ResourceBudget::unlimited()
        .with_cpu_ticks(CpuTicks::new(1000))
        .with_message_count(MessageCount::new(100));
    let budget2 = budget1;

    assert!(budget1.is_subset_of(&budget2));
    assert!(budget2.is_subset_of(&budget1));
}

#[test]
fn test_resource_budget_subset_violates() {
    let parent = ResourceBudget::unlimited()
        .with_cpu_ticks(CpuTicks::new(500));
    let child = ResourceBudget::unlimited()
        .with_cpu_ticks(CpuTicks::new(1000)); // Exceeds parent

    assert!(!child.is_subset_of(&parent));
}

#[test]
fn test_resource_budget_min() {
    let budget1 = ResourceBudget::unlimited()
        .with_cpu_ticks(CpuTicks::new(1000))
        .with_message_count(MessageCount::new(50));

    let budget2 = ResourceBudget::unlimited()
        .with_cpu_ticks(CpuTicks::new(500))
        .with_message_count(MessageCount::new(100));

    let min = budget1.min(&budget2);
    assert_eq!(min.cpu_ticks, Some(CpuTicks::new(500)));
    assert_eq!(min.message_count, Some(MessageCount::new(50)));
}

#[test]
fn test_resource_usage_zero() {
    let usage = ResourceUsage::zero();
    assert!(usage.cpu_ticks.is_zero());
    assert!(usage.message_count.is_zero());
}

#[test]
fn test_resource_usage_consume() {
    let mut usage = ResourceUsage::zero();
    usage.consume_cpu_ticks(CpuTicks::new(10));
    usage.consume_message();
    usage.consume_message();

    assert_eq!(usage.cpu_ticks, CpuTicks::new(10));
    assert_eq!(usage.message_count, MessageCount::new(2));
}

#[test]
fn test_resource_usage_exceeds_none() {
    let usage = ResourceUsage::zero();
    let budget = ResourceBudget::unlimited()
        .with_cpu_ticks(CpuTicks::new(1000));

    assert_eq!(usage.exceeds(&budget), None);
}

#[test]
fn test_resource_usage_exceeds_cpu() {
    let mut usage = ResourceUsage::zero();
    usage.consume_cpu_ticks(CpuTicks::new(1001));

    let budget = ResourceBudget::unlimited()
        .with_cpu_ticks(CpuTicks::new(1000));

    let exceeded = usage.exceeds(&budget);
    assert!(exceeded.is_some());
    match exceeded.unwrap() {
        ResourceExceeded::CpuTicks { limit, usage: u } => {
            assert_eq!(limit, CpuTicks::new(1000));
            assert_eq!(u, CpuTicks::new(1001));
        }
        _ => panic!("Expected CpuTicks exceeded"),
    }
}

#[test]
fn test_resource_usage_exceeds_messages() {
    let mut usage = ResourceUsage::zero();
    for _ in 0..11 {
        usage.consume_message();
    }

    let budget = ResourceBudget::unlimited()
        .with_message_count(MessageCount::new(10));

    let exceeded = usage.exceeds(&budget);
    assert!(exceeded.is_some());
    match exceeded.unwrap() {
        ResourceExceeded::MessageCount { limit, usage: u } => {
            assert_eq!(limit, MessageCount::new(10));
            assert_eq!(u, MessageCount::new(11));
        }
        _ => panic!("Expected MessageCount exceeded"),
    }
}

#[test]
fn test_resource_usage_remaining() {
    let mut usage = ResourceUsage::zero();
    usage.consume_cpu_ticks(CpuTicks::new(300));
    usage.consume_message();

    let budget = ResourceBudget::unlimited()
        .with_cpu_ticks(CpuTicks::new(1000))
        .with_message_count(MessageCount::new(10));

    let remaining = usage.remaining(&budget);
    assert_eq!(remaining.cpu_ticks, Some(CpuTicks::new(700)));
    assert_eq!(remaining.message_count, Some(MessageCount::new(9)));
}

#[test]
fn test_resource_usage_remaining_saturates() {
    let mut usage = ResourceUsage::zero();
    usage.consume_cpu_ticks(CpuTicks::new(1500));

    let budget = ResourceBudget::unlimited()
        .with_cpu_ticks(CpuTicks::new(1000));

    let remaining = usage.remaining(&budget);
    assert_eq!(remaining.cpu_ticks, Some(CpuTicks::zero()));
}

#[test]
fn test_resource_delta_zero() {
    let delta = ResourceDelta::zero();
    assert!(delta.cpu_ticks.is_zero());
    assert!(delta.message_count.is_zero());
}

#[test]
fn test_resource_delta_from() {
    let mut before = ResourceUsage::zero();
    before.consume_cpu_ticks(CpuTicks::new(100));
    before.consume_message();

    let mut after = before;
    after.consume_cpu_ticks(CpuTicks::new(50));
    after.consume_message();

    let delta = ResourceDelta::from(&before, &after);
    assert_eq!(delta.cpu_ticks, CpuTicks::new(50));
    assert_eq!(delta.message_count, MessageCount::new(1));
}

#[test]
fn test_resource_types_display() {
    assert_eq!(CpuTicks::new(100).to_string(), "100 CPU ticks");
    assert_eq!(MemoryUnits::new(200).to_string(), "200 memory units");
    assert_eq!(MessageCount::new(10).to_string(), "10 messages");
    assert_eq!(StorageOps::new(5).to_string(), "5 storage ops");
    assert_eq!(PipelineStages::new(3).to_string(), "3 pipeline stages");
}

#[test]
fn test_resource_budget_display() {
    let budget = ResourceBudget::unlimited()
        .with_cpu_ticks(CpuTicks::new(1000))
        .with_message_count(MessageCount::new(50));

    let display = budget.to_string();
    assert!(display.contains("cpu=1000"));
    assert!(display.contains("msg=50"));
}

#[test]
fn test_resource_exceeded_display() {
    let exceeded = ResourceExceeded::CpuTicks {
        limit: CpuTicks::new(1000),
        usage: CpuTicks::new(1001),
    };

    let display = exceeded.to_string();
    assert!(display.contains("CPU ticks exceeded"));
    assert!(display.contains("limit=1000"));
    assert!(display.contains("usage=1001"));
}

use mmtk::memory_manager;
use mmtk::util::allocation::allocators::AllocationSemantics;
use mmtk::util::test_util::fixtures::{MutatorFixture, SerialFixture};
use mmtk::util::test_util::mock_vm::MockVM;
use mmtk::vm::binding::VMBinding;

#[test]
pub fn allocate_alignment() {
    let mut mutator: SerialFixture<MutatorFixture> = SerialFixture::new();
    mutator.with_fixture_mut(|fixture: &mut MutatorFixture| {
        let min = MockVM::MIN_ALIGNMENT;
        let max = MockVM::MAX_ALIGNMENT;
        let mut align = min;
        while align <= max {
            let addr = memory_manager::allocate(
                &mut fixture.mutator,
                &mut fixture.mmtk.plan,
                8,
                align,
                0,
                AllocationSemantics::Default,
            );
            assert!(
                addr.is_aligned_to(align),
                "Expected allocation alignment {}, returned address is {:?}",
                align,
                addr
            );
            assert!(!addr.is_zero());
            align *= 2;
        }
    })
}

#[test]
pub fn allocate_offset() {
    let mut mutator: SerialFixture<MutatorFixture> = SerialFixture::new();
    mutator.with_fixture_mut(|fixture: &mut MutatorFixture| {
        const OFFSET: usize = 4;
        let min = MockVM::MIN_ALIGNMENT;
        let max = MockVM::MAX_ALIGNMENT;
        let mut align = min;
        while align <= max {
            let addr = memory_manager::allocate(
                &mut fixture.mutator,
                &mut fixture.mmtk.plan,
                8,
                align,
                OFFSET,
                AllocationSemantics::Default,
            );
            assert!(
                addr.add_bytes(OFFSET).is_aligned_to(align),
                "Expected allocation alignment {}, returned address is {:?}",
                align,
                addr
            );
            assert!(!addr.is_zero());
            align *= 2;
        }
    })
}

//! Behaviour of the chip enumeration and machine construction.

use sp1_air::stark::{
    CpuChip, MachineError, MemoryChipKind, MemoryGlobalChip, ProgramChip, RecursionAir,
    StarkMachine, PROOF_MAX_NUM_PVS,
};

/// A stand-in backend configuration; the machine carries it through opaquely.
#[derive(Clone, Copy, Debug, PartialEq, Eq)]
struct TestConfig {
    security_bits: u32,
}

#[test]
fn enumeration_lists_every_chip_in_order() {
    let chips = RecursionAir::get_all();
    let expected = vec![
        RecursionAir::Program(ProgramChip),
        RecursionAir::Cpu(CpuChip),
        RecursionAir::MemoryInit(MemoryGlobalChip { kind: MemoryChipKind::Init }),
        RecursionAir::MemoryFinalize(MemoryGlobalChip { kind: MemoryChipKind::Finalize }),
    ];
    assert_eq!(chips, expected);
}

#[test]
fn enumeration_is_deterministic() {
    let first = RecursionAir::get_all();
    let second = RecursionAir::get_all();
    assert_eq!(first, second);
}

#[test]
fn public_value_counts_are_fixed_per_variant() {
    assert_eq!(RecursionAir::Program(ProgramChip).public_value_count(), 0);
    assert_eq!(RecursionAir::Cpu(CpuChip).public_value_count(), PROOF_MAX_NUM_PVS);
    let init = RecursionAir::MemoryInit(MemoryGlobalChip { kind: MemoryChipKind::Init });
    assert_eq!(init.public_value_count(), 0);
    let fin = RecursionAir::MemoryFinalize(MemoryGlobalChip { kind: MemoryChipKind::Finalize });
    assert_eq!(fin.public_value_count(), 0);
}

#[test]
fn machine_holds_the_full_chip_set_and_budget() {
    let config = TestConfig { security_bits: 100 };
    let machine = RecursionAir::machine(config);
    assert_eq!(machine.chips(), &RecursionAir::get_all());
    assert_eq!(machine.num_pv_elts(), PROOF_MAX_NUM_PVS);
    assert_eq!(machine.config(), &config);
}

#[test]
fn construction_at_the_exact_budget_succeeds() {
    let config = TestConfig { security_bits: 100 };
    let chips = vec![RecursionAir::Cpu(CpuChip)];
    let machine = StarkMachine::new(config, chips, PROOF_MAX_NUM_PVS);
    assert!(machine.is_ok());
}

#[test]
fn construction_over_the_budget_fails() {
    let config = TestConfig { security_bits: 100 };
    let chips = vec![RecursionAir::Cpu(CpuChip), RecursionAir::Cpu(CpuChip)];
    let result = StarkMachine::new(config, chips, PROOF_MAX_NUM_PVS);
    assert_eq!(result.unwrap_err(), MachineError::PublicValueBudgetExceeded);

    let one_short = StarkMachine::new(config, vec![RecursionAir::Cpu(CpuChip)], PROOF_MAX_NUM_PVS - 1);
    assert_eq!(one_short.unwrap_err(), MachineError::PublicValueBudgetExceeded);
}

#[test]
fn empty_chip_set_fits_any_budget() {
    let config = TestConfig { security_bits: 100 };
    let machine = StarkMachine::new(config, Vec::new(), 0);
    assert!(machine.is_ok());
}

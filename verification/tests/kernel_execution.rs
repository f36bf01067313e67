use abr_infinity_fabric::kernel_execution::{
    declare_execution_model, declare_hip_kernel_specs, declared_execution_advantage,
};

#[test]
fn execution_model_declared() {
    let model = declare_execution_model();
    assert_eq!(model.n_modules, 8, "Execution model must declare 8 OAM modules");
    assert!(model.software_stack.contains("ROCm"), "Software stack must declare ROCm");
}

#[test]
fn working_set_resident_in_hbm3e() {
    let model = declare_execution_model();
    assert!(model.working_set_resident,
        "Community working set must be resident in HBM3E without eviction");
}

#[test]
fn inter_module_not_required() {
    let model = declare_execution_model();
    assert!(!model.inter_module_required,
        "Independent community analyses must not require inter-module communication");
}

#[test]
fn hip_kernel_specs_cover_all_operators() {
    let specs = declare_hip_kernel_specs();
    assert_eq!(specs.len(), 3, "Must declare HIP specs for all three operators: A, B, R");
    let operators: Vec<&str> = specs.iter().map(|s| s.operator).collect();
    assert!(operators.contains(&"A"), "Must declare HIP spec for A");
    assert!(operators.contains(&"B"), "Must declare HIP spec for B");
    assert!(operators.contains(&"R"), "Must declare HIP spec for R");
}

#[test]
fn no_kernel_requires_inter_block_comm() {
    let specs = declare_hip_kernel_specs();
    for spec in &specs {
        assert!(!spec.requires_inter_block_comm,
            "Operator {} must not require inter-block communication", spec.operator);
    }
}

#[test]
fn execution_advantage_in_declared_range() {
    // 140 GB / 1 MB = 133,514x
    let ratio = declared_execution_advantage();
    let advantage = ratio.numerator as f64 / ratio.denominator as f64;
    assert!(advantage > 100_000.0, "Declared execution advantage must exceed 100,000x");
    assert!(advantage < 200_000.0, "Declared execution advantage must be below 200,000x");
}

#[test]
fn open_condition_if3_named() {
    let model = declare_execution_model();
    assert!(model.open_condition.contains("OC-IF-3"),
        "Execution model must name OC-IF-3 as open condition");
}

#[test]
fn memory_bandwidth_declared_from_specification() {
    let model = declare_execution_model();
    let gb_s = model.memory_bandwidth_per_module_mb_s as f64 / 1000.0;
    assert!((gb_s - 8_000.0).abs() < 1e-6,
        "Memory bandwidth must be 8,000 GB/s (8.0 TB/s from AMD specification)");
}

#[test]
fn execution_advantage_exact() {
    let ratio = declared_execution_advantage();
    assert_eq!(ratio.numerator, 140_000_000_000);
    assert_eq!(ratio.denominator, 1_048_576);
    let advantage = ratio.numerator as f64 / ratio.denominator as f64;
    assert!((advantage - 133_514.404296875).abs() < 1e-6);
}

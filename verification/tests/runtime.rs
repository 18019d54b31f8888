use khora_codegen_llvm::runtime::{declaration, runtime_fns, Machine, Runtime, RuntimeFn};

#[test]
fn the_allocator_takes_field_bytes_and_a_tag() {
    let d = declaration(RuntimeFn::Alloc);
    assert_eq!(d.name, "khora_alloc");
    assert_eq!(d.params, vec![Machine::I64, Machine::I32]);
    assert_eq!(d.result, Machine::Ptr);
}

#[test]
fn a_fiber_is_spawned_with_six_arguments() {
    let d = declaration(RuntimeFn::FiberSpawn);
    assert_eq!(d.name, "khora_fiber_spawn");
    assert_eq!(
        d.params,
        vec![Machine::Ptr, Machine::Ptr, Machine::Ptr, Machine::Ptr, Machine::Bool, Machine::Ptr]
    );
    assert_eq!(d.result, Machine::Ptr);
}

#[test]
fn the_runtime_is_declared_once_per_function() {
    let runtime = Runtime::declare();
    let fns = runtime_fns();
    assert_eq!(fns.len(), 62);
    let mut names: Vec<String> = fns.iter().map(|f| runtime.get(*f).name.clone()).collect();
    assert_eq!(runtime.get(RuntimeFn::Trap).name, "llvm.trap");
    assert!(runtime.get(RuntimeFn::Trap).params.is_empty());
    assert_eq!(runtime.get(RuntimeFn::PrintFloat).params, vec![Machine::Double]);
    assert_eq!(runtime.get(RuntimeFn::ChannelSend).result, Machine::Bool);
    assert_eq!(runtime.get(RuntimeFn::FibersBounded).name, "khora_fibers_open_bounded");
    names.sort();
    names.dedup();
    assert_eq!(names.len(), 62);
}

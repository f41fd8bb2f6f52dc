use inkwell::context::Context;
use inkwell::AddressSpace;
use qirlib::lower::{has_plain_return, Lookups, LowerError, RuntimeLibrary};

const RUNTIME: [&str; 4] = [
    "__quantum__rt__qubit_allocate",
    "__quantum__rt__qubit_release",
    "__quantum__rt__array_create_1d",
    "__quantum__rt__array_get_element_ptr_1d",
];

#[test]
fn missing_runtime_declaration_is_named() {
    let context = Context::create();
    let module = context.create_module("empty");
    let mut lookups = Lookups::new();
    let r = RuntimeLibrary::new(&mut lookups, &module);
    assert!(matches!(
        r,
        Err(LowerError::MissingDeclaration { name: "__quantum__rt__qubit_allocate" })
    ));
}

#[test]
fn runtime_resolves_when_declared() {
    let context = Context::create();
    let module = context.create_module("declared");
    let ptr = context.i8_type().ptr_type(AddressSpace::default());
    for name in RUNTIME {
        module.add_function(name, ptr.fn_type(&[], false), None);
    }
    let mut lookups = Lookups::new();
    let r = RuntimeLibrary::new(&mut lookups, &module);
    assert!(r.is_ok());
    let rt = r.ok().unwrap();
    assert_eq!(rt.qubit_allocate, module.get_function(RUNTIME[0]).unwrap());
    assert_eq!(rt.array_get_element_ptr_1d, module.get_function(RUNTIME[3]).unwrap());
}

#[test]
fn integer_return_is_unsupported() {
    let context = Context::create();
    let module = context.create_module("int");
    let ptr = context.i8_type().ptr_type(AddressSpace::default());
    module.add_function(RUNTIME[0], context.i64_type().fn_type(&[], false), None);
    for name in &RUNTIME[1..] {
        module.add_function(name, ptr.fn_type(&[], false), None);
    }
    let f = module.get_function(RUNTIME[0]).unwrap();
    assert!(!has_plain_return(f));
    let void_fn = module.add_function("v", context.void_type().fn_type(&[], false), None);
    assert!(has_plain_return(void_fn));
    let mut lookups = Lookups::new();
    assert!(matches!(
        RuntimeLibrary::new(&mut lookups, &module),
        Err(LowerError::UnsupportedSignature { name: "__quantum__rt__qubit_allocate" })
    ));
}

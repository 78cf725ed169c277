use vstd::prelude::*;
use vstd::string::*;

use crate::health::{appended_logs, bumped, BotHealthEntry};

verus! {

// ── Outside types ─────────────────────────────────────────────────────────────

#[verifier::external_type_specification]
#[verifier::external_body]
pub struct ExWasmConfig(wasmtime::Config);

#[verifier::external_type_specification]
#[verifier::external_body]
pub struct ExWasmEngine(wasmtime::Engine);

#[verifier::external_type_specification]
#[verifier::external_body]
pub struct ExWasmModule(wasmtime::Module);

#[verifier::external_type_specification]
#[verifier::external_body]
#[verifier::reject_recursive_types(T)]
pub struct ExWasmStore<T: 'static>(wasmtime::Store<T>);

#[verifier::external_type_specification]
#[verifier::external_body]
#[verifier::reject_recursive_types(T)]
pub struct ExWasmLinker<T>(wasmtime::Linker<T>);

#[verifier::external_type_specification]
#[verifier::external_body]
pub struct ExWasmInstance(wasmtime::Instance);

#[verifier::external_type_specification]
#[verifier::external_body]
pub struct ExWasmMemory(wasmtime::Memory);

#[verifier::external_type_specification]
#[verifier::external_body]
#[verifier::reject_recursive_types(Params)]
#[verifier::reject_recursive_types(Results)]
pub struct ExWasmTypedFunc<Params, Results>(wasmtime::TypedFunc<Params, Results>);

#[verifier::external_type_specification]
#[verifier::external_body]
#[verifier::reject_recursive_types(T)]
pub struct ExWasmCaller<'a, T: 'static>(wasmtime::Caller<'a, T>);

// ── What the wrappers speak of ────────────────────────────────────────────────

/// Which engine an engine handle is (clones of one engine are the same).
pub uninterp spec fn engine_identity(engine: wasmtime::Engine) -> nat;

/// The engine a module was compiled for.
pub uninterp spec fn module_engine(module: wasmtime::Module) -> nat;

/// The WebAssembly binary a module was compiled from.
pub uninterp spec fn module_bytes(module: wasmtime::Module) -> Seq<u8>;

/// The engine a linker defines items for.
pub uninterp spec fn linker_engine(linker: wasmtime::Linker<Vec<u8>>) -> nat;

/// The engine a store belongs to.
pub uninterp spec fn store_engine(store: wasmtime::Store<Vec<u8>>) -> nat;

/// Which store a store is; it stays the same while the store is used.
pub uninterp spec fn store_identity(store: wasmtime::Store<Vec<u8>>) -> nat;

/// The store that owns an instance.
pub uninterp spec fn instance_store(instance: wasmtime::Instance) -> nat;

/// The store that owns a linear memory.
pub uninterp spec fn memory_store(memory: wasmtime::Memory) -> nat;

/// The store that owns an exported `(i32) -> i32` function.
pub uninterp spec fn unary_func_store(f: wasmtime::TypedFunc<i32, i32>) -> nat;

/// The store that owns an exported `(i32, i32) -> ()` function.
pub uninterp spec fn pair_unit_func_store(f: wasmtime::TypedFunc<(i32, i32), ()>) -> nat;

/// The store that owns an exported `(i32, i32) -> i64` function.
pub uninterp spec fn pair_i64_func_store(f: wasmtime::TypedFunc<(i32, i32), i64>) -> nat;

/// The bytes held in a store's host data: what the guest has logged through
/// `env::log` since the buffer was last emptied.
pub uninterp spec fn store_log(store: wasmtime::Store<Vec<u8>>) -> Seq<u8>;

/// The fuel left in a store.
pub uninterp spec fn store_fuel(store: wasmtime::Store<Vec<u8>>) -> u64;

/// The contents of a linear memory in a store.
pub uninterp spec fn store_memory_bytes(memory: wasmtime::Memory, store: wasmtime::Store<Vec<u8>>) -> Seq<u8>;

/// A store after a call that used it: still the same store of the same
/// engine.
pub open spec fn same_store(after: wasmtime::Store<Vec<u8>>, before: wasmtime::Store<Vec<u8>>) -> bool {
    store_identity(after) == store_identity(before) && store_engine(after) == store_engine(before)
}

// ── Wrappers ──────────────────────────────────────────────────────────────────

/// `wasmtime::Config::new`: the default engine configuration.  Nothing is
/// promised of the opaque result.
#[verifier::external_body]
fn config_new() -> (c: wasmtime::Config) {
    wasmtime::Config::new()
}

/// `Config::consume_fuel`: switch fuel metering on or off.
#[verifier::external_body]
fn config_consume_fuel(config: &mut wasmtime::Config, enable: bool) {
    config.consume_fuel(enable);
}

/// `Config::memory_reservation`: the virtual address space reserved up front
/// for each linear memory.
#[verifier::external_body]
fn config_memory_reservation(config: &mut wasmtime::Config, bytes: u64) {
    config.memory_reservation(bytes);
}

/// `Config::memory_reservation_for_growth`: the extra address space reserved
/// when a linear memory has to move to grow.
#[verifier::external_body]
fn config_memory_reservation_for_growth(config: &mut wasmtime::Config, bytes: u64) {
    config.memory_reservation_for_growth(bytes);
}

/// `wasmtime::Engine::new`; the error is rendered as text.
#[verifier::external_body]
fn engine_new(config: &wasmtime::Config) -> (r: Result<wasmtime::Engine, String>) {
    wasmtime::Engine::new(config).map_err(|e| e.to_string())
}

/// `wasmtime::Module::from_binary`: compile `bytes` for `engine`; the error
/// is rendered as text.
#[verifier::external_body]
fn module_from_binary(engine: &wasmtime::Engine, bytes: &[u8]) -> (r: Result<wasmtime::Module, String>)
    ensures
        r matches Ok(m) ==> module_bytes(m) == bytes@ && module_engine(m) == engine_identity(*engine),
{
    wasmtime::Module::from_binary(engine, bytes).map_err(|e| e.to_string())
}

/// `wasmtime::Store::new` with an empty log buffer as the host data.
#[verifier::external_body]
fn store_new(engine: &wasmtime::Engine) -> (s: wasmtime::Store<Vec<u8>>)
    ensures
        store_log(s) == Seq::<u8>::empty(),
        store_engine(s) == engine_identity(*engine),
{
    wasmtime::Store::new(engine, Vec::new())
}

/// `wasmtime::Linker::new`.
#[verifier::external_body]
fn linker_new(engine: &wasmtime::Engine) -> (l: wasmtime::Linker<Vec<u8>>)
    ensures
        linker_engine(l) == engine_identity(*engine),
{
    wasmtime::Linker::new(engine)
}

/// `Linker::func_wrap` defining the host import `env::log(ptr, len)`, whose
/// body is the verified `host_log`.
#[verifier::external_body]
fn linker_define_log(linker: &mut wasmtime::Linker<Vec<u8>>) -> (r: Result<(), String>)
    ensures
        linker_engine(*final(linker)) == linker_engine(*old(linker)),
{
    linker
        .func_wrap("env", "log", |mut caller: wasmtime::Caller<'_, Vec<u8>>, ptr: i32, len: i32| {
            host_log(&mut caller, ptr, len)
        })
        .map(|_| ())
        .map_err(|e| e.to_string())
}

/// `Linker::define_unknown_imports_as_traps`.  It panics when the module was
/// compiled for another engine than the linker's, so that is required.
#[verifier::external_body]
fn linker_trap_unknown_imports(
    linker: &mut wasmtime::Linker<Vec<u8>>,
    module: &wasmtime::Module,
) -> (r: Result<(), String>)
    requires
        module_engine(*module) == linker_engine(*old(linker)),
    ensures
        linker_engine(*final(linker)) == linker_engine(*old(linker)),
{
    linker.define_unknown_imports_as_traps(module).map_err(|e| e.to_string())
}

/// `Linker::instantiate`.  It panics when the store, the linker and the
/// module do not share an engine, so that is required; the instance belongs
/// to the store.
#[verifier::external_body]
fn linker_instantiate(
    linker: &wasmtime::Linker<Vec<u8>>,
    store: &mut wasmtime::Store<Vec<u8>>,
    module: &wasmtime::Module,
) -> (r: Result<wasmtime::Instance, String>)
    requires
        linker_engine(*linker) == store_engine(*old(store)),
        module_engine(*module) == store_engine(*old(store)),
    ensures
        same_store(*final(store), *old(store)),
        r matches Ok(i) ==> instance_store(i) == store_identity(*old(store)),
{
    linker.instantiate(store, module).map_err(|e| e.to_string())
}

/// `Instance::get_memory`: the exported memory called `name`, if any.  It
/// panics when the store does not own the instance, so that is required.
#[verifier::external_body]
fn instance_get_memory(
    instance: &wasmtime::Instance,
    store: &mut wasmtime::Store<Vec<u8>>,
    name: &str,
) -> (m: Option<wasmtime::Memory>)
    requires
        instance_store(*instance) == store_identity(*old(store)),
    ensures
        same_store(*final(store), *old(store)),
        store_log(*final(store)) == store_log(*old(store)),
        m matches Some(mm) ==> memory_store(mm) == store_identity(*old(store)),
{
    instance.get_memory(store, name)
}

/// `Instance::get_typed_func::<i32, i32>`: the exported function `name` with
/// that signature, if any.  It panics when the store does not own the
/// instance, so that is required.
#[verifier::external_body]
fn instance_get_unary_func(
    instance: &wasmtime::Instance,
    store: &mut wasmtime::Store<Vec<u8>>,
    name: &str,
) -> (r: Result<wasmtime::TypedFunc<i32, i32>, String>)
    requires
        instance_store(*instance) == store_identity(*old(store)),
    ensures
        same_store(*final(store), *old(store)),
        store_log(*final(store)) == store_log(*old(store)),
        r matches Ok(f) ==> unary_func_store(f) == store_identity(*old(store)),
{
    instance.get_typed_func::<i32, i32>(store, name).map_err(|e| e.to_string())
}

/// `Instance::get_typed_func::<(i32, i32), ()>`, as above.
#[verifier::external_body]
fn instance_get_pair_unit_func(
    instance: &wasmtime::Instance,
    store: &mut wasmtime::Store<Vec<u8>>,
    name: &str,
) -> (r: Result<wasmtime::TypedFunc<(i32, i32), ()>, String>)
    requires
        instance_store(*instance) == store_identity(*old(store)),
    ensures
        same_store(*final(store), *old(store)),
        store_log(*final(store)) == store_log(*old(store)),
        r matches Ok(f) ==> pair_unit_func_store(f) == store_identity(*old(store)),
{
    instance.get_typed_func::<(i32, i32), ()>(store, name).map_err(|e| e.to_string())
}

/// `Instance::get_typed_func::<(i32, i32), i64>`, as above.
#[verifier::external_body]
fn instance_get_pair_i64_func(
    instance: &wasmtime::Instance,
    store: &mut wasmtime::Store<Vec<u8>>,
    name: &str,
) -> (r: Result<wasmtime::TypedFunc<(i32, i32), i64>, String>)
    requires
        instance_store(*instance) == store_identity(*old(store)),
    ensures
        same_store(*final(store), *old(store)),
        store_log(*final(store)) == store_log(*old(store)),
        r matches Ok(f) ==> pair_i64_func_store(f) == store_identity(*old(store)),
{
    instance.get_typed_func::<(i32, i32), i64>(store, name).map_err(|e| e.to_string())
}

/// `Store::set_fuel`: on success the store holds exactly `fuel` (it fails
/// only when fuel metering is off).  The host data is not touched.
#[verifier::external_body]
fn store_set_fuel(store: &mut wasmtime::Store<Vec<u8>>, fuel: u64) -> (r: Result<(), String>)
    ensures
        same_store(*final(store), *old(store)),
        store_log(*final(store)) == store_log(*old(store)),
        r is Ok ==> store_fuel(*final(store)) == fuel,
        forall|m: wasmtime::Memory| #[trigger] store_memory_bytes(m, *final(store))
            == store_memory_bytes(m, *old(store)),
{
    store.set_fuel(fuel).map_err(|e| e.to_string())
}

/// How a call into the guest ended.
pub enum CallOutcome<R> {
    /// The call returned this value.
    Returned(R),
    /// The guest ran out of fuel; the text is the error's own.
    OutOfFuel(String),
    /// The guest trapped (or the call failed) for another reason; the text
    /// describes it.
    Trapped(String),
}

/// `TypedFunc::<i32, i32>::call`, telling fuel exhaustion
/// (`Trap::OutOfFuel`) apart from every other failure.  It panics when the
/// store does not own the function, so that is required.
#[verifier::external_body]
fn call_unary_func(
    f: &wasmtime::TypedFunc<i32, i32>,
    store: &mut wasmtime::Store<Vec<u8>>,
    arg: i32,
) -> (r: CallOutcome<i32>)
    requires
        unary_func_store(*f) == store_identity(*old(store)),
    ensures
        same_store(*final(store), *old(store)),
{
    match f.call(store, arg) {
        Ok(v) => CallOutcome::Returned(v),
        Err(e) => match e.downcast_ref::<wasmtime::Trap>() {
            Some(wasmtime::Trap::OutOfFuel) => CallOutcome::OutOfFuel(e.to_string()),
            _ => CallOutcome::Trapped(e.to_string()),
        },
    }
}

/// `TypedFunc::<(i32, i32), ()>::call`, as above.
#[verifier::external_body]
fn call_pair_unit_func(
    f: &wasmtime::TypedFunc<(i32, i32), ()>,
    store: &mut wasmtime::Store<Vec<u8>>,
    args: (i32, i32),
) -> (r: CallOutcome<()>)
    requires
        pair_unit_func_store(*f) == store_identity(*old(store)),
    ensures
        same_store(*final(store), *old(store)),
{
    match f.call(store, args) {
        Ok(v) => CallOutcome::Returned(v),
        Err(e) => match e.downcast_ref::<wasmtime::Trap>() {
            Some(wasmtime::Trap::OutOfFuel) => CallOutcome::OutOfFuel(e.to_string()),
            _ => CallOutcome::Trapped(e.to_string()),
        },
    }
}

/// `TypedFunc::<(i32, i32), i64>::call`, as above.
#[verifier::external_body]
fn call_pair_i64_func(
    f: &wasmtime::TypedFunc<(i32, i32), i64>,
    store: &mut wasmtime::Store<Vec<u8>>,
    args: (i32, i32),
) -> (r: CallOutcome<i64>)
    requires
        pair_i64_func_store(*f) == store_identity(*old(store)),
    ensures
        same_store(*final(store), *old(store)),
{
    match f.call(store, args) {
        Ok(v) => CallOutcome::Returned(v),
        Err(e) => match e.downcast_ref::<wasmtime::Trap>() {
            Some(wasmtime::Trap::OutOfFuel) => CallOutcome::OutOfFuel(e.to_string()),
            _ => CallOutcome::Trapped(e.to_string()),
        },
    }
}

/// `Memory::write`: it succeeds exactly when `[offset, offset + bytes.len())`
/// lies in the memory, and then those bytes of the memory become `bytes`;
/// otherwise nothing is written.  It panics when the store does not own the
/// memory, so that is required.  The host data and the fuel are not touched.
#[verifier::external_body]
fn memory_write(
    memory: &wasmtime::Memory,
    store: &mut wasmtime::Store<Vec<u8>>,
    offset: usize,
    bytes: &[u8],
) -> (ok: bool)
    requires
        memory_store(*memory) == store_identity(*old(store)),
    ensures
        same_store(*final(store), *old(store)),
        store_log(*final(store)) == store_log(*old(store)),
        store_fuel(*final(store)) == store_fuel(*old(store)),
        ok <==> offset + bytes@.len() <= store_memory_bytes(*memory, *old(store)).len(),
        ok ==> store_memory_bytes(*memory, *final(store)) == store_memory_bytes(*memory, *old(store)).subrange(
            0,
            offset as int,
        ) + bytes@ + store_memory_bytes(*memory, *old(store)).subrange(
            offset + bytes@.len(),
            store_memory_bytes(*memory, *old(store)).len() as int,
        ),
        !ok ==> store_memory_bytes(*memory, *final(store)) == store_memory_bytes(*memory, *old(store)),
{
    memory.write(store, offset, bytes).is_ok()
}

/// `Memory::read`: it succeeds exactly when `[offset, offset + buf.len())`
/// lies in the memory, and then fills `buf` with those bytes; otherwise
/// `buf` is left untouched.  It panics when the store does not own the
/// memory, so that is required.
#[verifier::external_body]
fn memory_read(
    memory: &wasmtime::Memory,
    store: &wasmtime::Store<Vec<u8>>,
    offset: usize,
    buf: &mut Vec<u8>,
) -> (ok: bool)
    requires
        memory_store(*memory) == store_identity(*store),
    ensures
        ok <==> offset + old(buf)@.len() <= store_memory_bytes(*memory, *store).len(),
        ok ==> final(buf)@ == store_memory_bytes(*memory, *store).subrange(
            offset as int,
            offset + old(buf)@.len(),
        ),
        !ok ==> final(buf)@ == old(buf)@,
{
    memory.read(store, offset, buf.as_mut_slice()).is_ok()
}

/// `Store::data_mut` emptied with `std::mem::take`: the bytes the guest has
/// logged since the last drain, leaving the buffer empty.
#[verifier::external_body]
fn store_take_log(store: &mut wasmtime::Store<Vec<u8>>) -> (bytes: Vec<u8>)
    ensures
        same_store(*final(store), *old(store)),
        bytes@ == store_log(*old(store)),
        store_log(*final(store)) == Seq::<u8>::empty(),
{
    std::mem::take(store.data_mut())
}


/// The bytes held in the host data of the store a host call runs in: the
/// guest's log since the buffer was last emptied.
pub uninterp spec fn caller_log(caller: wasmtime::Caller<'_, Vec<u8>>) -> Seq<u8>;

/// The contents of a linear memory, seen from inside a host call.
pub uninterp spec fn caller_memory_bytes(memory: wasmtime::Memory, caller: wasmtime::Caller<'_, Vec<u8>>) -> Seq<u8>;

/// The contents of the calling instance's `memory` export, if it has one.
pub uninterp spec fn caller_exported_memory_bytes(caller: wasmtime::Caller<'_, Vec<u8>>) -> Option<Seq<u8>>;

/// The store a host call runs in.
pub uninterp spec fn caller_store(caller: wasmtime::Caller<'_, Vec<u8>>) -> nat;

/// `Caller::get_export("memory")`, kept when it is a memory: a memory of
/// the store the call runs in.  The lookup changes neither the host data nor
/// any memory.
#[verifier::external_body]
fn caller_memory(caller: &mut wasmtime::Caller<'_, Vec<u8>>) -> (m: Option<wasmtime::Memory>)
    ensures
        m is Some <==> caller_exported_memory_bytes(*old(caller)) is Some,
        m matches Some(mm) ==> memory_store(mm) == caller_store(*old(caller)),
        caller_store(*final(caller)) == caller_store(*old(caller)),
        m matches Some(mm) ==> caller_memory_bytes(mm, *final(caller))
            == caller_exported_memory_bytes(*old(caller))->0,
        caller_log(*final(caller)) == caller_log(*old(caller)),
        caller_exported_memory_bytes(*final(caller)) == caller_exported_memory_bytes(*old(caller)),
        forall|mm: wasmtime::Memory| #[trigger] caller_memory_bytes(mm, *final(caller))
            == caller_memory_bytes(mm, *old(caller)),
{
    match caller.get_export("memory") {
        Some(wasmtime::Extern::Memory(m)) => Some(m),
        _ => None,
    }
}

/// `Memory::data_size` seen from inside a host call: the memory's length in
/// bytes.  It panics when the memory belongs to another store, so that is
/// required.
#[verifier::external_body]
fn caller_memory_size(memory: &wasmtime::Memory, caller: &wasmtime::Caller<'_, Vec<u8>>) -> (n: usize)
    requires
        memory_store(*memory) == caller_store(*caller),
    ensures
        n == caller_memory_bytes(*memory, *caller).len(),
{
    memory.data_size(caller)
}

/// `Memory::read` from inside a host call: it succeeds exactly when
/// `[offset, offset + buf.len())` lies in the memory, and then fills `buf`
/// with those bytes; otherwise `buf` is left untouched.  It panics when the
/// memory belongs to another store, so that is required.
#[verifier::external_body]
fn caller_memory_read(
    memory: &wasmtime::Memory,
    caller: &wasmtime::Caller<'_, Vec<u8>>,
    offset: usize,
    buf: &mut Vec<u8>,
) -> (ok: bool)
    requires
        memory_store(*memory) == caller_store(*caller),
    ensures
        ok <==> offset + old(buf)@.len() <= caller_memory_bytes(*memory, *caller).len(),
        ok ==> final(buf)@ == caller_memory_bytes(*memory, *caller).subrange(
            offset as int,
            offset + old(buf)@.len(),
        ),
        !ok ==> final(buf)@ == old(buf)@,
{
    memory.read(caller, offset, buf.as_mut_slice()).is_ok()
}

/// `Caller::data_mut` extended with `bytes`: append to the host log buffer.
/// No memory changes.
#[verifier::external_body]
fn caller_append_log(caller: &mut wasmtime::Caller<'_, Vec<u8>>, bytes: &[u8])
    ensures
        caller_store(*final(caller)) == caller_store(*old(caller)),
        caller_log(*final(caller)) == caller_log(*old(caller)) + bytes@,
        caller_exported_memory_bytes(*final(caller)) == caller_exported_memory_bytes(*old(caller)),
        forall|mm: wasmtime::Memory| #[trigger] caller_memory_bytes(mm, *final(caller))
            == caller_memory_bytes(mm, *old(caller)),
{
    caller.data_mut().extend_from_slice(bytes)
}

// ── Verified host logic ───────────────────────────────────────────────────────

/// The byte range `[start, end)` that `env::log(ptr, len)` names in a memory
/// of `size` bytes: `start` is `ptr` read as an unsigned offset, `end` is
/// `start + len` saturating at `usize::MAX`; `None` when it runs past the
/// memory.
pub open spec fn log_range_spec(ptr: i32, len: i32, size: usize) -> Option<(usize, usize)> {
    let start = ptr as usize;
    let end = if start + (len as usize) > usize::MAX {
        usize::MAX
    } else {
        (start + (len as usize)) as usize
    };
    if end <= size {
        Some((start, end))
    } else {
        None
    }
}

/// The byte range of a guest `log` call.
pub fn log_range(ptr: i32, len: i32, size: usize) -> (r: Option<(usize, usize)>)
    ensures
        r == log_range_spec(ptr, len, size),
        r matches Some((s, e)) ==> s <= e <= size,
{
    let start = ptr as usize;
    let end = start.saturating_add(len as usize);
    if end <= size {
        Some((start, end))
    } else {
        None
    }
}

/// What the log buffer holds after the guest calls `env::log(ptr, len)`
/// with the log `before` and its memory export holding `memory` (`None` when
/// it exports no memory): the bytes at `[ptr, ptr + len)` appended, or
/// nothing when there is no memory or the range runs past it.
pub open spec fn host_log_spec(before: Seq<u8>, memory: Option<Seq<u8>>, ptr: i32, len: i32) -> Seq<u8> {
    match memory {
        None => before,
        Some(mem) => match log_range_spec(ptr, len, mem.len() as usize) {
            None => before,
            Some((start, end)) => before + mem.subrange(start as int, end as int),
        },
    }
}

/// The host import `env::log(ptr, len)`: append the guest bytes at
/// `[ptr, ptr + len)` to the log buffer; ignore the call when the module has
/// no memory export or the range runs past it.
pub fn host_log(caller: &mut wasmtime::Caller<'_, Vec<u8>>, ptr: i32, len: i32)
    ensures
        caller_log(*final(caller)) == host_log_spec(
            caller_log(*old(caller)),
            caller_exported_memory_bytes(*old(caller)),
            ptr,
            len,
        ),
{
    let mem = match caller_memory(caller) {
        Some(m) => m,
        None => {
            return;
        },
    };
    let size = caller_memory_size(&mem, caller);
    match log_range(ptr, len, size) {
        None => {},
        Some((start, end)) => {
            let count: usize = end - start;
            let mut buf: Vec<u8> = vec![0u8; count];
            if caller_memory_read(&mem, caller, start, &mut buf) {
                caller_append_log(caller, buf.as_slice());
            }
        },
    }
}

/// The fuel budget for the warm-up `init` call: a hundred ticks' worth,
/// saturating.
pub open spec fn init_fuel_spec(fuel_per_tick: u64) -> u64 {
    if fuel_per_tick * 100 > u64::MAX {
        u64::MAX
    } else {
        (fuel_per_tick * 100) as u64
    }
}

/// Address space reserved up front for a bot's linear memory (16 MiB).
///
/// Wasmtime's 64-bit default reserves over 4 GiB per instance so that it can
/// drop bounds checks; a server that hosts many bots, possibly under an
/// address-space limit, reserves little and lets memories move as they grow.
/// The guest sees the same memory either way.
pub const MEMORY_RESERVATION_BYTES: u64 = 16777216;

/// Extra address space reserved when a bot's memory moves to grow (1 MiB).
pub const MEMORY_GROWTH_RESERVATION_BYTES: u64 = 1048576;

/// The warm-up fuel budget, computed without overflow.
pub fn init_fuel(fuel_per_tick: u64) -> (r: u64)
    ensures
        r == init_fuel_spec(fuel_per_tick),
{
    if fuel_per_tick > u64::MAX / 100 {
        u64::MAX
    } else {
        fuel_per_tick * 100
    }
}

/// The action pointer and length packed in a `tick` result: the high 32 bits
/// are the pointer, the low 32 bits the length.
pub open spec fn unpack_spec(packed: i64) -> (usize, usize) {
    (((packed as u64) / 0x1_0000_0000u64) as usize, ((packed as u64) % 0x1_0000_0000u64) as usize)
}

/// Split a packed `(ptr << 32) | len` tick result.
pub fn unpack_action(packed: i64) -> (r: (usize, usize))
    ensures
        r == unpack_spec(packed),
{
    #[verifier::truncate]
    let bits = packed as u64;
    let hi: u64 = bits >> 32u64;
    #[verifier::truncate]
    let lo = bits as u32;
    proof {
        assert(hi == bits / 0x1_0000_0000u64 && hi < 0x1_0000_0000u64) by (bit_vector)
            requires
                hi == bits >> 32u64,
        ;
        assert(lo == bits % 0x1_0000_0000u64) by (bit_vector)
            requires
                lo == bits as u32,
        ;
    }
    (hi as usize, lo as usize)
}

/// Why a WASM bot could not be started.
pub enum WasmHostError {
    Engine(String),
    Compile(String),
    DefineLog(String),
    DefineTraps(String),
    Instantiate(String),
    MissingMemory,
    MissingExport(String, String),
    FuelUnavailable(String),
    Tick0TooLarge,
    AllocTrapped(String),
    WriteFailed,
    InitTrapped(String),
}

/// `a` followed by `b`.
fn concat_text(a: &str, b: &str) -> (r: String)
    ensures
        r@ == a@ + b@,
{
    a.to_owned().concat(b)
}

/// The message that goes with a start error, as text.
pub open spec fn error_message(e: WasmHostError) -> Seq<char> {
    match e {
        WasmHostError::Engine(t) => "failed to create wasmtime Engine: "@ + t@,
        WasmHostError::Compile(t) => "failed to compile WASM module: "@ + t@,
        WasmHostError::DefineLog(t) => "failed to define env::log import: "@ + t@,
        WasmHostError::DefineTraps(t) => "failed to define unknown imports as traps: "@ + t@,
        WasmHostError::Instantiate(t) => "failed to instantiate WASM module: "@ + t@,
        WasmHostError::MissingMemory => "WASM module must export `memory`"@,
        WasmHostError::MissingExport(what, t) => "WASM module must export `"@ + what@ + "`: "@ + t@,
        WasmHostError::FuelUnavailable(t) => "fuel unavailable (engine not configured with consume_fuel): "@
            + t@,
        WasmHostError::Tick0TooLarge => "tick-0 JSON too large for i32: out of range integral type conversion attempted"@,
        WasmHostError::AllocTrapped(t) => "alloc trapped during init warm-up: "@ + t@,
        WasmHostError::WriteFailed => "failed to write tick-0 JSON into WASM memory"@,
        WasmHostError::InitTrapped(t) => "init trapped during warm-up: "@ + t@,
    }
}

impl WasmHostError {
    /// A readable description of the error.
    pub fn message(&self) -> (m: String)
        ensures
            m@ == error_message(*self),
    {
        match self {
            WasmHostError::Engine(t) => concat_text("failed to create wasmtime Engine: ", t.as_str()),
            WasmHostError::Compile(t) => concat_text("failed to compile WASM module: ", t.as_str()),
            WasmHostError::DefineLog(t) => concat_text("failed to define env::log import: ", t.as_str()),
            WasmHostError::DefineTraps(t) => concat_text(
                "failed to define unknown imports as traps: ",
                t.as_str(),
            ),
            WasmHostError::Instantiate(t) => concat_text("failed to instantiate WASM module: ", t.as_str()),
            WasmHostError::MissingMemory => "WASM module must export `memory`".to_owned(),
            WasmHostError::MissingExport(what, t) => {
                let head = concat_text("WASM module must export `", what.as_str());
                let head = concat_text(head.as_str(), "`: ");
                let m = concat_text(head.as_str(), t.as_str());
                m
            },
            WasmHostError::FuelUnavailable(t) => concat_text(
                "fuel unavailable (engine not configured with consume_fuel): ",
                t.as_str(),
            ),
            WasmHostError::Tick0TooLarge => "tick-0 JSON too large for i32: out of range integral type conversion attempted".to_owned(),
            WasmHostError::AllocTrapped(t) => concat_text("alloc trapped during init warm-up: ", t.as_str()),
            WasmHostError::WriteFailed => "failed to write tick-0 JSON into WASM memory".to_owned(),
            WasmHostError::InitTrapped(t) => concat_text("init trapped during warm-up: ", t.as_str()),
        }
    }
}

/// Text for a call that did not return: the error's text, nothing for a call
/// that returned.
fn outcome_text<R>(o: CallOutcome<R>) -> (r: String)
    ensures
        match o {
            CallOutcome::Returned(_) => r@ == Seq::<char>::empty(),
            CallOutcome::OutOfFuel(t) => r@ == t@,
            CallOutcome::Trapped(t) => r@ == t@,
        },
{
    match o {
        CallOutcome::Returned(_) => String::new(),
        CallOutcome::OutOfFuel(t) => t,
        CallOutcome::Trapped(t) => t,
    }
}

/// The warm-up's `alloc` call: the buffer it returned, or `AllocTrapped`
/// with the text of the failure.
pub fn alloc_result(o: CallOutcome<i32>) -> (r: Result<i32, WasmHostError>)
    ensures
        match o {
            CallOutcome::Returned(p) => r == Ok::<i32, WasmHostError>(p),
            CallOutcome::OutOfFuel(t) => r matches Err(WasmHostError::AllocTrapped(u)) && u@ == t@,
            CallOutcome::Trapped(t) => r matches Err(WasmHostError::AllocTrapped(u)) && u@ == t@,
        },
{
    match o {
        CallOutcome::Returned(p) => Ok(p),
        other => Err(WasmHostError::AllocTrapped(outcome_text(other))),
    }
}

/// The warm-up's `init` call: done, or `InitTrapped` with the text of the
/// failure.
pub fn init_result(o: CallOutcome<()>) -> (r: Result<(), WasmHostError>)
    ensures
        match o {
            CallOutcome::Returned(_) => r is Ok,
            CallOutcome::OutOfFuel(t) => r matches Err(WasmHostError::InitTrapped(u)) && u@ == t@,
            CallOutcome::Trapped(t) => r matches Err(WasmHostError::InitTrapped(u)) && u@ == t@,
        },
{
    match o {
        CallOutcome::Returned(_) => Ok(()),
        other => Err(WasmHostError::InitTrapped(outcome_text(other))),
    }
}

/// A call of one of the bot's `(ptr, len)` entry points: the arguments it was
/// given, the contents of its memory when the call started, and the input
/// the host wrote for it.
pub struct GuestCall {
    pub ptr: i32,
    pub len: i32,
    pub memory: Seq<u8>,
    pub input: Seq<u8>,
}

/// The `len` bytes of `memory` at the guest pointer `ptr`.
pub open spec fn bytes_at(memory: Seq<u8>, ptr: i32, len: i32) -> Seq<u8> {
    memory.subrange(ptr as usize as int, ptr as usize + len)
}

/// The call found its input where its arguments point: the bytes at
/// `[ptr, ptr + len)` of the memory it started with are the input.
pub open spec fn reads_its_input(c: GuestCall) -> bool {
    &&& 0 <= c.len
    &&& c.ptr as usize + c.len <= c.memory.len()
    &&& bytes_at(c.memory, c.ptr, c.len) == c.input
}

/// The warm-up of a bot: the fuel set before its `alloc` and the call of
/// `init` that followed (which returned normally).
pub struct WarmUp {
    pub fuel: u64,
    pub init: GuestCall,
}

/// A tick that reached the bot's `tick`: the fuel set before its `alloc`,
/// the call of `tick`, and the value `tick` returned (`None` when it ran out
/// of fuel or trapped).
pub struct TickRecord {
    pub fuel: u64,
    pub tick: GuestCall,
    pub returned: Option<i64>,
}

/// Call the bot's `init(ptr, len)`; the ghost result records the arguments.
fn call_init(
    f: &wasmtime::TypedFunc<(i32, i32), ()>,
    store: &mut wasmtime::Store<Vec<u8>>,
    ptr: i32,
    len: i32,
) -> (r: (CallOutcome<()>, Ghost<(i32, i32)>))
    requires
        pair_unit_func_store(*f) == store_identity(*old(store)),
    ensures
        same_store(*final(store), *old(store)),
        r.1@ == (ptr, len),
{
    (call_pair_unit_func(f, store, (ptr, len)), Ghost((ptr, len)))
}

/// Call the bot's `tick(ptr, len)`; the ghost result records the arguments.
fn call_tick(
    f: &wasmtime::TypedFunc<(i32, i32), i64>,
    store: &mut wasmtime::Store<Vec<u8>>,
    ptr: i32,
    len: i32,
) -> (r: (CallOutcome<i64>, Ghost<(i32, i32)>))
    requires
        pair_i64_func_store(*f) == store_identity(*old(store)),
    ensures
        same_store(*final(store), *old(store)),
        r.1@ == (ptr, len),
{
    (call_pair_i64_func(f, store, (ptr, len)), Ghost((ptr, len)))
}

/// The action a bot's `tick` result points at in `memory`: the UTF-8 text of
/// the `len` bytes at `ptr`, where `(ptr, len)` is the unpacked result; `None`
/// when those bytes lie outside the memory or are not valid UTF-8.
pub open spec fn action_text(memory: Seq<u8>, packed: i64) -> Option<Seq<char>> {
    let (ptr, len) = unpack_spec(packed);
    if ptr + len <= memory.len() && vstd::utf8::valid_utf8(memory.subrange(ptr as int, ptr + len)) {
        Some(vstd::utf8::decode_utf8(memory.subrange(ptr as int, ptr + len)))
    } else {
        None
    }
}

/// The text of an optional string.
pub open spec fn opt_text(r: Option<String>) -> Option<Seq<char>> {
    match r {
        Some(s) => Some(s@),
        None => None,
    }
}

/// A WASM bot running in-process: its store, memory, exported `alloc` and
/// `tick` functions, fuel budget and fault counters.
pub struct WasmBotDriver {
    store: wasmtime::Store<Vec<u8>>,
    memory: wasmtime::Memory,
    alloc_fn: wasmtime::TypedFunc<i32, i32>,
    tick_fn: wasmtime::TypedFunc<(i32, i32), i64>,
    fuel_per_tick: u64,
    fuel_exhausted: u64,
    traps: u64,
    /// The binary the module was compiled from.
    source: Ghost<Seq<u8>>,
    /// The warm-up: its fuel and the call of `init`.
    warm_up: Ghost<WarmUp>,
    /// The fuel set for the last tick that reached the bot's `tick`, and the
    /// input it found at its pointer.
    last_tick: Ghost<Option<TickRecord>>,
}

/// `n + 1`, wrapping at `u64::MAX`.
fn bump_exec(n: u64) -> (r: u64)
    ensures
        r == bumped(n),
{
    if n == u64::MAX {
        0
    } else {
        n + 1
    }
}

/// After a successful write of `bytes` at `offset`, those bytes are what the
/// memory holds there.
proof fn lemma_written_bytes(before: Seq<u8>, bytes: Seq<u8>, offset: int)
    requires
        0 <= offset,
        offset + bytes.len() <= before.len(),
    ensures
        (before.subrange(0, offset) + bytes + before.subrange(offset + bytes.len(), before.len() as int)).subrange(
            offset,
            offset + bytes.len(),
        ) == bytes,
{
    let after = before.subrange(0, offset) + bytes + before.subrange(offset + bytes.len(), before.len() as int);
    assert(after.subrange(offset, offset + bytes.len()) =~= bytes);
}

impl WasmBotDriver {
    /// The memory and the exported functions belong to the driver's store.
    pub closed spec fn wf(&self) -> bool {
        &&& memory_store(self.memory) == store_identity(self.store)
        &&& unary_func_store(self.alloc_fn) == store_identity(self.store)
        &&& pair_i64_func_store(self.tick_fn) == store_identity(self.store)
        &&& reads_its_input(self.warm_up@.init)
        &&& (self.last_tick@ matches Some(t) ==> reads_its_input(t.tick))
    }

    pub closed spec fn fuel_budget(&self) -> u64 {
        self.fuel_per_tick
    }

    pub closed spec fn fuel_exhausted_spec(&self) -> u64 {
        self.fuel_exhausted
    }

    pub closed spec fn traps_spec(&self) -> u64 {
        self.traps
    }

    /// The bytes the bot has logged and nobody has drained yet.
    pub closed spec fn pending_log(&self) -> Seq<u8> {
        store_log(self.store)
    }

    /// The WebAssembly binary the bot was compiled from.
    pub closed spec fn module_source(&self) -> Seq<u8> {
        self.source@
    }

    /// The fuel the warm-up (`alloc` then `init`) started with.
    pub closed spec fn warm_up_fuel(&self) -> u64 {
        self.warm_up@.fuel
    }

    /// The call of `init` made by the warm-up.
    pub closed spec fn warm_up_call(&self) -> GuestCall {
        self.warm_up@.init
    }

    /// The current contents of the bot's linear memory.
    pub closed spec fn memory_contents(&self) -> Seq<u8> {
        store_memory_bytes(self.memory, self.store)
    }

    /// The bytes `init` found at the pointer it was given.
    pub closed spec fn warm_up_input(&self) -> Seq<u8> {
        self.warm_up@.init.input
    }

    /// The call of the bot's `tick` made by the latest `tick_json`, if that
    /// call reached it.
    pub closed spec fn last_tick(&self) -> Option<TickRecord> {
        self.last_tick@
    }

    /// The same bot, with the same counters and log: only the store's
    /// internal state may differ.
    pub closed spec fn same_bot(&self, other: &Self) -> bool {
        &&& self.fuel_per_tick == other.fuel_per_tick
        &&& self.source@ == other.source@
        &&& self.warm_up@ == other.warm_up@
    }

    /// Compile and instantiate a bot, then warm it up by calling `init` with the
    /// tick-0 observation JSON, under a hundred ticks' worth of fuel.
    ///
    /// The module must export `memory`, `alloc(i32) -> i32`, `init(i32, i32)`
    /// and `tick(i32, i32) -> i64`; it may import `env::log`, and any other
    /// import traps when called.  The engine meters fuel and reserves
    /// `MEMORY_RESERVATION_BYTES` of address space per linear memory.
    ///
    /// A failed `alloc` or `init` is reported by `alloc_result` and
    /// `init_result`.  On success `warm_up_call` records the call of `init`
    /// that returned: the pointer `alloc` gave, the length of the tick-0 JSON,
    /// and the JSON bytes found at that pointer.
    pub fn new(wasm_bytes: &[u8], tick0_obs_json: &str, fuel_per_tick: u64) -> (r: Result<Self, WasmHostError>)
        ensures
            r matches Ok(d) ==> d.wf() && d.fuel_budget() == fuel_per_tick && d.fuel_exhausted_spec() == 0
                && d.traps_spec() == 0,
            r matches Ok(d) ==> d.module_source() == wasm_bytes@,
            r matches Ok(d) ==> d.warm_up_fuel() == init_fuel_spec(fuel_per_tick)
                && d.warm_up_input() == tick0_obs_json.spec_bytes()
                && d.warm_up_call().len == tick0_obs_json.spec_bytes().len()
                && bytes_at(d.warm_up_call().memory, d.warm_up_call().ptr, d.warm_up_call().len)
                == tick0_obs_json.spec_bytes(),
            r matches Ok(d) ==> d.last_tick() is None,
            tick0_obs_json.spec_bytes().len() > i32::MAX ==> r is Err,
            r matches Err(WasmHostError::Tick0TooLarge) ==> tick0_obs_json.spec_bytes().len() > i32::MAX,
    {
        let mut config = config_new();
        config_consume_fuel(&mut config, true);
        config_memory_reservation(&mut config, MEMORY_RESERVATION_BYTES);
        config_memory_reservation_for_growth(&mut config, MEMORY_GROWTH_RESERVATION_BYTES);
        let engine = match engine_new(&config) {
            Ok(e) => e,
            Err(t) => {
                return Err(WasmHostError::Engine(t));
            },
        };
        let module = match module_from_binary(&engine, wasm_bytes) {
            Ok(m) => m,
            Err(t) => {
                return Err(WasmHostError::Compile(t));
            },
        };
        let mut store = store_new(&engine);
        let mut linker = linker_new(&engine);
        match linker_define_log(&mut linker) {
            Ok(()) => {},
            Err(t) => {
                return Err(WasmHostError::DefineLog(t));
            },
        }
        match linker_trap_unknown_imports(&mut linker, &module) {
            Ok(()) => {},
            Err(t) => {
                return Err(WasmHostError::DefineTraps(t));
            },
        }
        let instance = match linker_instantiate(&linker, &mut store, &module) {
            Ok(i) => i,
            Err(t) => {
                return Err(WasmHostError::Instantiate(t));
            },
        };
        let memory = match instance_get_memory(&instance, &mut store, "memory") {
            Some(m) => m,
            None => {
                return Err(WasmHostError::MissingMemory);
            },
        };
        let alloc_fn = match instance_get_unary_func(&instance, &mut store, "alloc") {
            Ok(f) => f,
            Err(t) => {
                return Err(WasmHostError::MissingExport("alloc(i32) -> i32".to_owned(), t));
            },
        };
        let init_fn = match instance_get_pair_unit_func(&instance, &mut store, "init") {
            Ok(f) => f,
            Err(t) => {
                return Err(WasmHostError::MissingExport("init(i32, i32)".to_owned(), t));
            },
        };
        let tick_fn = match instance_get_pair_i64_func(&instance, &mut store, "tick") {
            Ok(f) => f,
            Err(t) => {
                return Err(WasmHostError::MissingExport("tick(i32, i32) -> i64".to_owned(), t));
            },
        };
        match store_set_fuel(&mut store, init_fuel(fuel_per_tick)) {
            Ok(()) => {},
            Err(t) => {
                return Err(WasmHostError::FuelUnavailable(t));
            },
        }
        let ghost warm_fuel = store_fuel(store);
        let obs_bytes = tick0_obs_json.as_bytes();
        if obs_bytes.len() > i32::MAX as usize {
            return Err(WasmHostError::Tick0TooLarge);
        }
        let obs_len = obs_bytes.len() as i32;
        let buf_ptr = match alloc_result(call_unary_func(&alloc_fn, &mut store, obs_len)) {
            Ok(p) => p,
            Err(e) => {
                return Err(e);
            },
        };
        #[verifier::truncate]
        let offset = buf_ptr as usize;
        let ghost before = store_memory_bytes(memory, store);
        if !memory_write(&memory, &mut store, offset, obs_bytes) {
            return Err(WasmHostError::WriteFailed);
        }
        let ghost input = store_memory_bytes(memory, store).subrange(offset as int, offset + obs_bytes@.len());
        proof {
            lemma_written_bytes(before, obs_bytes@, offset as int);
        }
        let ghost at_init = store_memory_bytes(memory, store);
        let (init_outcome, init_args) = call_init(&init_fn, &mut store, buf_ptr, obs_len);
        match init_result(init_outcome) {
            Ok(()) => {},
            Err(e) => {
                return Err(e);
            },
        }
        Ok(WasmBotDriver {
            store,
            memory,
            alloc_fn,
            tick_fn,
            fuel_per_tick,
            fuel_exhausted: 0,
            traps: 0,
            source: Ghost(module_bytes(module)),
            warm_up: Ghost(
                WarmUp {
                    fuel: warm_fuel,
                    init: GuestCall { ptr: init_args@.0, len: init_args@.1, memory: at_init, input },
                },
            ),
            last_tick: Ghost(None),
        })
    }

    /// Bytes the bot has logged since the last drain.
    pub fn drain_log(&mut self) -> (r: Vec<u8>)
        requires
            old(self).wf(),
        ensures
            final(self).wf(),
            r@ == old(self).pending_log(),
            final(self).pending_log() == Seq::<u8>::empty(),
            final(self).fuel_budget() == old(self).fuel_budget(),
            final(self).fuel_exhausted_spec() == old(self).fuel_exhausted_spec(),
            final(self).traps_spec() == old(self).traps_spec(),
            final(self).same_bot(&*old(self)),
            final(self).last_tick() == old(self).last_tick(),
    {
        store_take_log(&mut self.store)
    }

    /// Ticks on which the bot ran out of fuel.
    pub fn fuel_exhausted_count(&self) -> (r: u64)
        ensures
            r == self.fuel_exhausted_spec(),
    {
        self.fuel_exhausted
    }

    /// Ticks on which the bot trapped for another reason.
    pub fn trap_count(&self) -> (r: u64)
        ensures
            r == self.traps_spec(),
    {
        self.traps
    }

    /// Account for how a call of the bot's `tick` ended: a returned value is
    /// handed back with the counters unchanged; running out of fuel counts
    /// one fuel exhaustion; any other failure counts one trap.
    pub fn record_tick_outcome(&mut self, o: CallOutcome<i64>) -> (r: Option<i64>)
        requires
            old(self).wf(),
        ensures
            final(self).wf(),
            final(self).same_bot(&*old(self)),
            final(self).pending_log() == old(self).pending_log(),
            final(self).last_tick() == old(self).last_tick(),
            match o {
                CallOutcome::Returned(v) => r == Some(v) && final(self).fuel_exhausted_spec()
                    == old(self).fuel_exhausted_spec() && final(self).traps_spec() == old(self).traps_spec(),
                CallOutcome::OutOfFuel(_) => r is None && final(self).fuel_exhausted_spec() == bumped(
                    old(self).fuel_exhausted_spec(),
                ) && final(self).traps_spec() == old(self).traps_spec(),
                CallOutcome::Trapped(_) => r is None && final(self).traps_spec() == bumped(old(self).traps_spec())
                    && final(self).fuel_exhausted_spec() == old(self).fuel_exhausted_spec(),
            },
    {
        match o {
            CallOutcome::Returned(v) => Some(v),
            CallOutcome::OutOfFuel(_) => {
                self.fuel_exhausted = bump_exec(self.fuel_exhausted);
                None
            },
            CallOutcome::Trapped(_) => {
                self.traps = bump_exec(self.traps);
                None
            },
        }
    }

    /// The action a `tick` result points at in the bot's memory: the UTF-8
    /// text of the bytes it designates, or `None` when they lie outside the
    /// memory or are not valid UTF-8.
    pub fn action_at(&self, packed: i64) -> (r: Option<String>)
        requires
            self.wf(),
        ensures
            opt_text(r) == action_text(self.memory_contents(), packed),
    {
        let (out_ptr, out_len) = unpack_action(packed);
        let mut action: Vec<u8> = vec![0u8; out_len];
        if !memory_read(&self.memory, &self.store, out_ptr, &mut action) {
            return None;
        }
        utf8_to_string(action)
    }

    /// One tick: give the bot a fresh fuel budget, hand it the observation JSON
    /// and return the action JSON it wrote, or `None` when anything fails.
    ///
    /// `last_tick` records the call of `tick` when the tick got that far.  How
    /// that call ended is accounted by `record_tick_outcome`, and the action
    /// is read from what it returned by `action_at`; nothing else touches the
    /// counters.
    pub fn tick_json(&mut self, obs_json: &str) -> (r: Option<String>)
        requires
            old(self).wf(),
        ensures
            final(self).wf(),
            final(self).same_bot(&*old(self)),
            match final(self).last_tick() {
                None => r is None && final(self).fuel_exhausted_spec() == old(self).fuel_exhausted_spec()
                    && final(self).traps_spec() == old(self).traps_spec(),
                Some(t) => {
                    &&& t.fuel == old(self).fuel_budget()
                    &&& t.tick.len == obs_json.spec_bytes().len()
                    &&& t.tick.input == obs_json.spec_bytes()
                    &&& bytes_at(t.tick.memory, t.tick.ptr, t.tick.len) == obs_json.spec_bytes()
                    &&& match t.returned {
                        Some(v) => opt_text(r) == action_text(final(self).memory_contents(), v)
                            && final(self).fuel_exhausted_spec() == old(self).fuel_exhausted_spec()
                            && final(self).traps_spec() == old(self).traps_spec(),
                        None => r is None && ((final(self).fuel_exhausted_spec() == bumped(
                            old(self).fuel_exhausted_spec(),
                        ) && final(self).traps_spec() == old(self).traps_spec()) || (final(self).traps_spec()
                            == bumped(old(self).traps_spec()) && final(self).fuel_exhausted_spec()
                            == old(self).fuel_exhausted_spec())),
                    }
                },
            },
            obs_json.spec_bytes().len() > i32::MAX ==> final(self).last_tick() is None,
    {
        proof {
            self.last_tick@ = None;
        }
        match store_set_fuel(&mut self.store, self.fuel_per_tick) {
            Ok(()) => {},
            Err(_) => {
                return None;
            },
        }
        let ghost tick_fuel = store_fuel(self.store);
        let obs_bytes = obs_json.as_bytes();
        if obs_bytes.len() > i32::MAX as usize {
            return None;
        }
        let obs_len = obs_bytes.len() as i32;
        let buf_ptr = match call_unary_func(&self.alloc_fn, &mut self.store, obs_len) {
            CallOutcome::Returned(p) => p,
            _ => {
                return None;
            },
        };
        #[verifier::truncate]
        let offset = buf_ptr as usize;
        let ghost before = store_memory_bytes(self.memory, self.store);
        if !memory_write(&self.memory, &mut self.store, offset, obs_bytes) {
            return None;
        }
        let ghost input = store_memory_bytes(self.memory, self.store).subrange(
            offset as int,
            offset + obs_bytes@.len(),
        );
        proof {
            lemma_written_bytes(before, obs_bytes@, offset as int);
        }
        let ghost at_tick = store_memory_bytes(self.memory, self.store);
        let (outcome, args) = call_tick(&self.tick_fn, &mut self.store, buf_ptr, obs_len);
        let returned = self.record_tick_outcome(outcome);
        proof {
            self.last_tick@ = Some(
                TickRecord {
                    fuel: tick_fuel,
                    tick: GuestCall { ptr: args@.0, len: args@.1, memory: at_tick, input },
                    returned,
                },
            );
        }
        match returned {
            Some(packed) => self.action_at(packed),
            None => None,
        }
    }

    /// Bring a health entry up to date after a tick: crash count = fuel
    /// exhaustions + traps (wrapping), drained log bytes appended, and either
    /// "seen now" (the tick produced an intent) or one more skipped tick.
    pub fn sync_health(&mut self, health: &mut BotHealthEntry, produced_intent: bool)
        requires
            old(self).wf(),
            old(health).wf(),
        ensures
            final(self).wf(),
            final(health).wf(),
            final(health).crashes == vstd::wrapping::u64_specs::wrapping_add(
                old(self).fuel_exhausted_spec(),
                old(self).traps_spec(),
            ),
            produced_intent ==> final(health).skipped_ticks == old(health).skipped_ticks,
            produced_intent ==> final(health).last_seen_ms >= 0,
            !produced_intent ==> final(health).skipped_ticks == bumped(old(health).skipped_ticks),
            !produced_intent ==> final(health).last_seen_ms == old(health).last_seen_ms,
            final(health).connected == old(health).connected,
            final(health).team == old(health).team,
            final(health).kind == old(health).kind,
            final(health).logs@ == appended_logs(old(health).logs@, old(self).pending_log()),
            final(self).pending_log() == Seq::<u8>::empty(),
            final(self).fuel_exhausted_spec() == old(self).fuel_exhausted_spec(),
            final(self).traps_spec() == old(self).traps_spec(),
            final(self).fuel_budget() == old(self).fuel_budget(),
            final(self).same_bot(&*old(self)),
            final(self).last_tick() == old(self).last_tick(),
    {
        let total = self.fuel_exhausted.wrapping_add(self.traps);
        health.set_crashes(total);
        let logged = store_take_log(&mut self.store);
        health.append_logs(logged.as_slice());
        if produced_intent {
            health.touch();
        } else {
            health.increment_skipped();
        }
    }
}

/// Law: every well-formed bot's warm-up called `init` with the pointer at
/// which its input lies: the `len` bytes at `ptr` of the memory `init`
/// started with are the bytes the host wrote for it (the tick-0 JSON, by
/// `new`), and `len` is their number.
pub proof fn law_init_reads_its_input(d: &WasmBotDriver)
    requires
        d.wf(),
    ensures
        bytes_at(d.warm_up_call().memory, d.warm_up_call().ptr, d.warm_up_call().len)
            == d.warm_up_input(),
        d.warm_up_call().len == d.warm_up_input().len(),
{
}

/// Law: for every well-formed bot, the last call of `tick` was given the
/// pointer at which its input lies: the `len` bytes at `ptr` of the memory
/// `tick` started with are the bytes the host wrote for it (the observation
/// JSON, by `tick_json`), and `len` is their number.
pub proof fn law_tick_reads_its_input(d: &WasmBotDriver)
    requires
        d.wf(),
        d.last_tick() is Some,
    ensures
        bytes_at(d.last_tick()->0.tick.memory, d.last_tick()->0.tick.ptr, d.last_tick()->0.tick.len)
            == d.last_tick()->0.tick.input,
        d.last_tick()->0.tick.len == d.last_tick()->0.tick.input.len(),
{
}

/// Decode bytes as UTF-8 text.
///
/// Calls `String::from_utf8`, which (as std documents) succeeds exactly on
/// valid UTF-8 and then holds the decoded characters.
#[verifier::external_body]
fn utf8_to_string(bytes: Vec<u8>) -> (r: Option<String>)
    ensures
        r is Some <==> vstd::utf8::valid_utf8(bytes@),
        r matches Some(s) ==> s@ == vstd::utf8::decode_utf8(bytes@),
{
    String::from_utf8(bytes).ok()
}

} // verus!

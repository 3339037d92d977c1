//! The interpreter sandbox: an untrusted WebAssembly module run with no host
//! imports, a fuel budget, a memory ceiling and a stack ceiling, in a fresh
//! store per call. Every pointer the guest returns is validated against its
//! memory before any byte is read.
use crate::text::string_from_utf8;
use vstd::prelude::*;
use vstd::slice::{slice_subrange, slice_to_vec};
use vstd::utf8::{decode_utf8, encode_utf8, valid_utf8};

verus! {

/// `wasmtime::Engine`, carried opaquely.
#[verifier::external_type_specification]
#[verifier::external_body]
pub struct ExEngine(wasmtime::Engine);

/// `wasmtime::Module`, a compiled module, carried opaquely.
#[verifier::external_type_specification]
#[verifier::external_body]
pub struct ExModule(wasmtime::Module);

/// `wasmtime::Store`, one guest's state, carried opaquely.
#[verifier::external_type_specification]
#[verifier::external_body]
#[verifier::reject_recursive_types(T)]
pub struct ExStore<T>(wasmtime::Store<T>);

/// `wasmtime::StoreLimits`, a store's resource ceilings, carried opaquely.
#[verifier::external_type_specification]
#[verifier::external_body]
pub struct ExStoreLimits(wasmtime::StoreLimits);

/// `wasmtime::Instance`, carried opaquely.
#[verifier::external_type_specification]
#[verifier::external_body]
pub struct ExInstance(wasmtime::Instance);

/// `wasmtime::Memory`, a handle to a guest's linear memory, carried opaquely.
#[verifier::external_type_specification]
#[verifier::external_body]
pub struct ExMemory(wasmtime::Memory);

/// `wasmtime::TypedFunc`, a handle to a guest function, carried opaquely.
#[verifier::external_type_specification]
#[verifier::external_body]
#[verifier::reject_recursive_types(Params)]
#[verifier::reject_recursive_types(Results)]
pub struct ExTypedFunc<Params, Results>(wasmtime::TypedFunc<Params, Results>);

/// `wasmtime::Error` (an `anyhow::Error`), carried opaquely.
#[verifier::external_type_specification]
#[verifier::external_body]
pub struct ExError(wasmtime::Error);

/// Fuel budget of one invocation, in abstract guest operations.
pub const FUEL_LIMIT: u64 = 10_000_000;

/// Ceiling of a guest's linear memory, in bytes.
pub const MAX_MEMORY_BYTES: usize = 16 * 1024 * 1024;

/// Ceiling of a guest's call stack, in bytes.
pub const MAX_STACK_BYTES: usize = 512 * 1024;

/// Failures of the sandbox.
#[derive(Debug)]
pub enum SandboxError {
    /// The engine refused the module or the guest trapped, ran out of fuel
    /// or reached a resource ceiling.
    Engine(wasmtime::Error),
    /// The module lacks a required export.
    MissingExport(String),
    /// The guest returned a null pointer.
    NullPointer,
    /// The guest's output block reaches past its memory; the number is the
    /// end of the header, or the declared length.
    OutputOverflow(usize),
    /// Input does not fit the guest's memory at the pointer it handed out.
    InputOverflow(usize),
    /// The guest handed out overlapping buffers for two inputs.
    InputOverlap,
    /// The interpreter's output is not UTF-8.
    InvalidUtf8,
}

/// One instantiation of a module: a store, the instance living in it, and
/// the exports looked up on that instance. The handles never leave the
/// session, so each is only ever used with the store it belongs to.
pub struct GuestSession {
    store: wasmtime::Store<wasmtime::StoreLimits>,
    instance: wasmtime::Instance,
    cap: usize,
    memory: Option<wasmtime::Memory>,
    alloc: Option<wasmtime::TypedFunc<i32, i32>>,
    interpret: Option<wasmtime::TypedFunc<(i32, i32), i32>>,
    assemble: Option<wasmtime::TypedFunc<(i32, i32, i32, i32), i32>>,
}

/// The bytes of a session's exported linear memory, as they stand.
pub uninterp spec fn guest_memory(s: GuestSession) -> Seq<u8>;

impl GuestSession {
    /// The exports and the memory ceiling are those of `other`.
    spec fn same_bindings(&self, other: &GuestSession) -> bool {
        &&& self.cap == other.cap
        &&& self.memory == other.memory
        &&& self.alloc == other.alloc
        &&& self.interpret == other.interpret
        &&& self.assemble == other.assemble
    }
}

/// Relies on `wasmtime::Engine::new` with a `Config` that meters fuel and
/// caps the stack at `max_stack` bytes. Linear memories never exceed
/// `memory_cap` bytes (the store limit), so the engine reserves address
/// space for that much with 64 KiB guards, in place of its default
/// reservation of several GiB per memory, which hosts with a bounded address
/// space refuse.
#[verifier::external_body]
fn new_engine(max_stack: usize, memory_cap: usize) -> (r: Result<wasmtime::Engine, wasmtime::Error>) {
    let mut config = wasmtime::Config::new();
    config.consume_fuel(true);
    config.max_wasm_stack(max_stack);
    config.static_memory_maximum_size(memory_cap as u64);
    config.static_memory_guard_size(0x1_0000);
    config.dynamic_memory_guard_size(0x1_0000);
    config.guard_before_linear_memory(false);
    wasmtime::Engine::new(&config)
}

/// Relies on `wasmtime::Module::new`: compiles (or refuses) the module bytes.
#[verifier::external_body]
fn compile_module(engine: &wasmtime::Engine, bytes: &[u8]) -> (r: Result<
    wasmtime::Module,
    wasmtime::Error,
>) {
    wasmtime::Module::new(engine, bytes)
}

/// Relies on `wasmtime::Linker::instantiate` with an empty linker (the guest
/// gets no imports), in a fresh `wasmtime::Store` whose `StoreLimits` cap
/// linear memory at `memory_cap` bytes and which holds `fuel` units. No
/// export is looked up yet.
#[verifier::external_body]
fn instantiate(engine: &wasmtime::Engine, module: &wasmtime::Module, memory_cap: usize, fuel: u64)
    -> (r: Result<GuestSession, wasmtime::Error>)
    ensures
        r matches Ok(s) ==> s.cap == memory_cap && s.memory is None && s.alloc is None
            && s.interpret is None && s.assemble is None,
{
    let limits = wasmtime::StoreLimitsBuilder::new().memory_size(memory_cap).build();
    let mut store = wasmtime::Store::new(engine, limits);
    store.limiter(|s| s);
    store.set_fuel(fuel)?;
    let instance = wasmtime::Linker::<wasmtime::StoreLimits>::new(engine).instantiate(&mut store, module)?;
    let (cap, memory, alloc, interpret, assemble) = (memory_cap, None, None, None, None);
    Ok(GuestSession { store, instance, cap, memory, alloc, interpret, assemble })
}

impl GuestSession {
    /// Relies on `wasmtime::Instance::get_memory` on this session's own
    /// instance and store: binds the exported memory named `name`, if any.
    #[verifier::external_body]
    fn bind_memory(&mut self, name: &str) -> (found: bool)
        ensures
            found == final(self).memory is Some,
            final(self).cap == old(self).cap,
            final(self).alloc == old(self).alloc,
            final(self).interpret == old(self).interpret,
            final(self).assemble == old(self).assemble,
    {
        self.memory = self.instance.get_memory(&mut self.store, name);
        self.memory.is_some()
    }

    /// Relies on `wasmtime::Instance::get_typed_func` on this session's own
    /// instance and store: binds the export `name` of type `(i32) -> i32`.
    #[verifier::external_body]
    fn bind_alloc(&mut self, name: &str) -> (found: bool)
        ensures
            found == final(self).alloc is Some,
            final(self).cap == old(self).cap,
            final(self).memory == old(self).memory,
            final(self).interpret == old(self).interpret,
            final(self).assemble == old(self).assemble,
            guest_memory(*final(self)) == guest_memory(*old(self)),
    {
        self.alloc = self.instance.get_typed_func::<i32, i32>(&mut self.store, name).ok();
        self.alloc.is_some()
    }

    /// Relies on `wasmtime::Instance::get_typed_func`, as `bind_alloc`, for
    /// the type `(i32, i32) -> i32`.
    #[verifier::external_body]
    fn bind_interpret(&mut self, name: &str) -> (found: bool)
        ensures
            found == final(self).interpret is Some,
            final(self).cap == old(self).cap,
            final(self).memory == old(self).memory,
            final(self).alloc == old(self).alloc,
            final(self).assemble == old(self).assemble,
            guest_memory(*final(self)) == guest_memory(*old(self)),
    {
        self.interpret = self.instance.get_typed_func::<(i32, i32), i32>(&mut self.store, name).ok();
        self.interpret.is_some()
    }

    /// Relies on `wasmtime::Instance::get_typed_func`, as `bind_alloc`, for
    /// the type `(i32, i32, i32, i32) -> i32`.
    #[verifier::external_body]
    fn bind_assemble(&mut self, name: &str) -> (found: bool)
        ensures
            found == final(self).assemble is Some,
            final(self).cap == old(self).cap,
            final(self).memory == old(self).memory,
            final(self).alloc == old(self).alloc,
            final(self).interpret == old(self).interpret,
            guest_memory(*final(self)) == guest_memory(*old(self)),
    {
        let f = self.instance.get_typed_func::<(i32, i32, i32, i32), i32>(&mut self.store, name);
        self.assemble = f.ok();
        self.assemble.is_some()
    }

    /// Relies on `wasmtime::TypedFunc::call` of the bound `alloc`: runs the
    /// guest, which may change its memory, trap or run out of fuel.
    #[verifier::external_body]
    fn call_alloc(&mut self, size: i32) -> (r: Result<i32, wasmtime::Error>)
        requires
            old(self).alloc is Some,
        ensures
            final(self).same_bindings(old(self)),
    {
        self.alloc.as_ref().unwrap().call(&mut self.store, size)
    }

    /// Relies on `wasmtime::TypedFunc::call` of the bound `interpret`, with
    /// the pair `(ptr, payload.len())`; the payload sits at `ptr`.
    #[verifier::external_body]
    fn call_interpret(&mut self, ptr: i32, payload: &[u8]) -> (r: Result<i32, wasmtime::Error>)
        requires
            old(self).interpret is Some,
            payload@.len() <= MAX_MEMORY_BYTES,
            holds_at(guest_memory(*old(self)), ptr, payload@),
        ensures
            final(self).same_bindings(old(self)),
    {
        self.interpret.as_ref().unwrap().call(&mut self.store, (ptr, payload.len() as i32))
    }

    /// Relies on `wasmtime::TypedFunc::call` of the bound `assemble`, with
    /// the pairs `(payload_ptr, payload.len())` and `(sig_ptr, sig.len())`;
    /// both inputs sit at their pointers.
    #[verifier::external_body]
    fn call_assemble(&mut self, payload_ptr: i32, payload: &[u8], sig_ptr: i32, sig: &[u8]) -> (r:
        Result<i32, wasmtime::Error>)
        requires
            old(self).assemble is Some,
            payload@.len() <= MAX_MEMORY_BYTES,
            sig@.len() <= MAX_MEMORY_BYTES,
            holds_at(guest_memory(*old(self)), payload_ptr, payload@),
            holds_at(guest_memory(*old(self)), sig_ptr, sig@),
        ensures
            final(self).same_bindings(old(self)),
    {
        let args = (payload_ptr, payload.len() as i32, sig_ptr, sig.len() as i32);
        self.assemble.as_ref().unwrap().call(&mut self.store, args)
    }

    /// Relies on `wasmtime::Memory::write` on the bound memory: copies `data`
    /// to `offset` where it fits, else writes nothing and fails.
    #[verifier::external_body]
    fn write(&mut self, offset: usize, data: &[u8]) -> (ok: bool)
        requires
            old(self).memory is Some,
        ensures
            final(self).same_bindings(old(self)),
            ok == (offset + data@.len() <= guest_memory(*old(self)).len()),
            ok ==> guest_memory(*final(self)) == guest_memory(*old(self)).subrange(0, offset as int)
                + data@ + guest_memory(*old(self)).subrange(
                (offset + data@.len()) as int,
                guest_memory(*old(self)).len() as int,
            ),
            !ok ==> guest_memory(*final(self)) == guest_memory(*old(self)),
    {
        self.memory.as_ref().unwrap().write(&mut self.store, offset, data).is_ok()
    }

    /// Relies on `wasmtime::Memory::data` on the bound memory: the memory as
    /// it stands, which the store limit keeps within the ceiling.
    #[verifier::external_body]
    fn data(&self) -> (r: &[u8])
        requires
            self.memory is Some,
        ensures
            r@ == guest_memory(*self),
            r@.len() <= self.cap,
    {
        self.memory.as_ref().unwrap().data(&self.store)
    }
}

/// Whether `data` sits at the offset that `ptr` denotes in `mem`.
pub open spec fn holds_at(mem: Seq<u8>, ptr: i32, data: Seq<u8>) -> bool {
    &&& guest_offset(ptr) + data.len() <= mem.len()
    &&& mem.subrange(guest_offset(ptr) as int, (guest_offset(ptr) + data.len()) as int) == data
}

/// The unsigned 32-bit offset that a guest pointer denotes.
pub open spec fn guest_offset(ptr: i32) -> nat {
    if ptr >= 0 {
        ptr as nat
    } else {
        (ptr + 0x1_0000_0000) as nat
    }
}

/// A little-endian 32-bit length.
pub open spec fn le_u32(b: Seq<u8>) -> nat {
    (b[0] + 0x100 * b[1] + 0x1_0000 * b[2] + 0x100_0000 * b[3]) as nat
}

/// The length that the header at `offset` declares.
pub open spec fn declared_len(mem: Seq<u8>, offset: nat) -> nat {
    le_u32(mem.subrange(offset as int, offset + 4 as int))
}

/// `n`, or `usize::MAX` where `n` does not fit.
pub open spec fn clamp_usize(n: nat) -> usize {
    if n <= usize::MAX {
        n as usize
    } else {
        usize::MAX
    }
}

/// Why an output block is refused.
pub enum BlockFault {
    Null,
    HeaderPastEnd(nat),
    BodyPastEnd(nat),
}

/// The output block at `ptr`: a 4-byte little-endian length `n`, then `n`
/// bytes, all of it inside `mem`.
pub open spec fn output_block(mem: Seq<u8>, ptr: i32) -> Result<Seq<u8>, BlockFault> {
    let offset = guest_offset(ptr);
    if ptr == 0 {
        Err(BlockFault::Null)
    } else if offset + 4 > mem.len() {
        Err(BlockFault::HeaderPastEnd(offset + 4))
    } else if offset + 4 + declared_len(mem, offset) > mem.len() {
        Err(BlockFault::BodyPastEnd(declared_len(mem, offset)))
    } else {
        Ok(mem.subrange(offset + 4 as int, offset + 4 + declared_len(mem, offset) as int))
    }
}

/// Reads the output block that the guest's `ptr` points at in `mem`,
/// refusing a null pointer and any block that reaches past the memory.
pub fn read_output_block(mem: &[u8], ptr: i32) -> (r: Result<Vec<u8>, SandboxError>)
    ensures
        r is Ok <==> output_block(mem@, ptr) is Ok,
        r matches Ok(bytes) ==> output_block(mem@, ptr) == Ok::<Seq<u8>, BlockFault>(bytes@),
        output_block(mem@, ptr) matches Err(BlockFault::Null) ==> r matches Err(
            SandboxError::NullPointer,
        ),
        output_block(mem@, ptr) matches Err(BlockFault::HeaderPastEnd(end)) ==> (r matches Err(
            SandboxError::OutputOverflow(n),
        ) && n == clamp_usize(end)),
        output_block(mem@, ptr) matches Err(BlockFault::BodyPastEnd(len)) ==> (r matches Err(
            SandboxError::OutputOverflow(n),
        ) && n == len),
{
    if ptr == 0 {
        return Err(SandboxError::NullPointer);
    }
    let offset: u64 = if ptr >= 0 {
        ptr as u64
    } else {
        (ptr as i64 + 0x1_0000_0000) as u64
    };
    let size = mem.len() as u64;
    if offset + 4 > size {
        let end = if offset + 4 <= usize::MAX as u64 {
            (offset + 4) as usize
        } else {
            usize::MAX
        };
        return Err(SandboxError::OutputOverflow(end));
    }
    let start = offset as usize;
    let len: u64 = mem[start] as u64 + 0x100 * (mem[start + 1] as u64) + 0x1_0000 * (mem[start
        + 2] as u64) + 0x100_0000 * (mem[start + 3] as u64);
    assert(len == declared_len(mem@, offset as nat));
    if offset + 4 + len > size {
        return Err(SandboxError::OutputOverflow(len as usize));
    }
    Ok(slice_to_vec(slice_subrange(mem, start + 4, start + 4 + len as usize)))
}

/// Every block the sandbox accepts lies inside guest memory: its header and
/// its declared length end at or before the memory's end.
pub proof fn lemma_accepted_block_in_bounds(mem: Seq<u8>, ptr: i32)
    requires
        output_block(mem, ptr) is Ok,
    ensures
        ptr != 0,
        guest_offset(ptr) + 4 + declared_len(mem, guest_offset(ptr)) <= mem.len(),
        output_block(mem, ptr)->Ok_0.len() == declared_len(mem, guest_offset(ptr)),
{
}

/// Whether `text` is the decoding of an accepted block at `ptr` in `mem`.
pub open spec fn accepted_text(mem: Seq<u8>, ptr: i32, text: Seq<char>) -> bool {
    &&& output_block(mem, ptr) is Ok
    &&& valid_utf8(output_block(mem, ptr)->Ok_0)
    &&& text == decode_utf8(output_block(mem, ptr)->Ok_0)
}

/// Reads the interpreter's output: an accepted block that must be UTF-8.
pub fn read_output_text(mem: &[u8], ptr: i32) -> (r: Result<String, SandboxError>)
    ensures
        r is Ok <==> (output_block(mem@, ptr) is Ok && valid_utf8(output_block(mem@, ptr)->Ok_0)),
        r matches Ok(text) ==> accepted_text(mem@, ptr, text@),
        output_block(mem@, ptr) matches Err(BlockFault::Null) ==> r matches Err(
            SandboxError::NullPointer,
        ),
        output_block(mem@, ptr) matches Err(BlockFault::HeaderPastEnd(end)) ==> (r matches Err(
            SandboxError::OutputOverflow(n),
        ) && n == clamp_usize(end)),
        output_block(mem@, ptr) matches Err(BlockFault::BodyPastEnd(len)) ==> (r matches Err(
            SandboxError::OutputOverflow(n),
        ) && n == len),
        output_block(mem@, ptr) is Ok && !valid_utf8(output_block(mem@, ptr)->Ok_0) ==> r matches Err(
            SandboxError::InvalidUtf8,
        ),
{
    let bytes = read_output_block(mem, ptr)?;
    match string_from_utf8(bytes) {
        Some(text) => Ok(text),
        None => Err(SandboxError::InvalidUtf8),
    }
}

/// An accepted block in a memory within the ceiling leaves room for its
/// header and a non-null pointer: its length plus 5 is within the ceiling.
proof fn lemma_block_within_ceiling(mem: Seq<u8>, ptr: i32)
    requires
        mem.len() <= MAX_MEMORY_BYTES,
        output_block(mem, ptr) is Ok,
    ensures
        output_block(mem, ptr)->Ok_0.len() + 5 <= MAX_MEMORY_BYTES,
{
}

/// The sandbox engine: fuel-metered, stack-capped, and never linked to any
/// host function.
pub struct Sandbox {
    engine: wasmtime::Engine,
}

/// A loaded interpreter module, ready to run.
pub struct SandboxModule<'a> {
    engine: &'a wasmtime::Engine,
    module: wasmtime::Module,
}

impl Sandbox {
    /// An engine with fuel metering and the stack ceiling.
    pub fn new() -> (r: Result<Sandbox, SandboxError>)
        ensures
            r matches Err(e) ==> e is Engine,
    {
        match new_engine(MAX_STACK_BYTES, MAX_MEMORY_BYTES) {
            Ok(engine) => Ok(Sandbox { engine }),
            Err(e) => Err(SandboxError::Engine(e)),
        }
    }

    /// Compiles an interpreter module from its bytes.
    pub fn load_module(&self, wasm_bytes: &[u8]) -> (r: Result<SandboxModule<'_>, SandboxError>)
        ensures
            r matches Err(e) ==> e is Engine,
    {
        match compile_module(&self.engine, wasm_bytes) {
            Ok(module) => Ok(SandboxModule { engine: &self.engine, module }),
            Err(e) => Err(SandboxError::Engine(e)),
        }
    }
}

/// Puts `data` where the pointer `ptr`, returned by the guest's allocator,
/// points: a null pointer is refused, and so is a buffer that does not fit
/// the memory.
fn place(session: &mut GuestSession, ptr: i32, data: &[u8]) -> (r: Result<i32, SandboxError>)
    requires
        old(session).memory is Some,
    ensures
        final(session).same_bindings(old(session)),
        ptr == 0 ==> (r matches Err(SandboxError::NullPointer) && guest_memory(*final(session))
            == guest_memory(*old(session))),
        ptr != 0 && guest_offset(ptr) + data@.len() <= guest_memory(*old(session)).len() ==> (r
            == Ok::<i32, SandboxError>(ptr) && guest_memory(*final(session)) == guest_memory(
            *old(session),
        ).subrange(0, guest_offset(ptr) as int) + data@ + guest_memory(*old(session)).subrange(
            (guest_offset(ptr) + data@.len()) as int,
            guest_memory(*old(session)).len() as int,
        )),
        ptr != 0 && guest_offset(ptr) + data@.len() > guest_memory(*old(session)).len() ==> (
        r matches Err(SandboxError::InputOverflow(n)) && n == data@.len() && guest_memory(
            *final(session),
        ) == guest_memory(*old(session))),
        r is Ok ==> holds_at(guest_memory(*final(session)), ptr, data@),
{
    if ptr == 0 {
        return Err(SandboxError::NullPointer);
    }
    let offset: usize = if ptr >= 0 {
        ptr as usize
    } else {
        (ptr as i64 + 0x1_0000_0000) as u64 as usize
    };
    if !session.write(offset, data) {
        return Err(SandboxError::InputOverflow(data.len()));
    }
    let ghost m = guest_memory(*session);
    assert(m.subrange(offset as int, offset + data@.len()) =~= data@);
    Ok(ptr)
}

/// A write beside a region leaves the region as it was.
proof fn lemma_write_beside(old_mem: Seq<u8>, off: int, data: Seq<u8>, ptr: i32, kept: Seq<u8>)
    requires
        0 <= off,
        off + data.len() <= old_mem.len(),
        holds_at(old_mem, ptr, kept),
        guest_offset(ptr) + kept.len() <= off || off + data.len() <= guest_offset(ptr),
    ensures
        holds_at(
            old_mem.subrange(0, off) + data + old_mem.subrange(off + data.len(), old_mem.len() as int),
            ptr,
            kept,
        ),
{
    let new_mem = old_mem.subrange(0, off) + data + old_mem.subrange(
        off + data.len(),
        old_mem.len() as int,
    );
    let p = guest_offset(ptr) as int;
    assert(new_mem.subrange(p, p + kept.len()) =~= old_mem.subrange(p, p + kept.len()));
}

/// The exports that every invocation needs: the memory and the allocator.
fn bind_common(session: &mut GuestSession) -> (r: Result<(), SandboxError>)
    requires
        old(session).memory is None && old(session).alloc is None,
    ensures
        final(session).cap == old(session).cap,
        final(session).interpret == old(session).interpret,
        final(session).assemble == old(session).assemble,
        r is Ok ==> final(session).memory is Some && final(session).alloc is Some,
        r matches Err(e) ==> (e matches SandboxError::MissingExport(n) && (n@ == "memory"@
            || n@ == "alloc"@)),
{
    if !session.bind_memory("memory") {
        return Err(SandboxError::MissingExport(String::from_str("memory")));
    }
    if !session.bind_alloc("alloc") {
        return Err(SandboxError::MissingExport(String::from_str("alloc")));
    }
    Ok(())
}

impl<'a> SandboxModule<'a> {
    /// Runs the guest's `interpret(ptr, len)` on the payload in a fresh store.
    /// All exports are looked up before any guest function runs; the payload
    /// is copied to the buffer the guest's `alloc` returns, and `interpret`
    /// is called with that buffer's pointer and length. The text returned is
    /// the UTF-8 decoding of an output block that lay wholly inside a memory
    /// within the ceiling.
    pub fn interpret(&self, payload: &[u8]) -> (r: Result<String, SandboxError>)
        ensures
            payload@.len() > MAX_MEMORY_BYTES ==> (r matches Err(SandboxError::InputOverflow(n))
                && n == payload@.len()),
            r matches Ok(text) ==> exists|mem: Seq<u8>, ptr: i32|
                mem.len() <= MAX_MEMORY_BYTES && #[trigger] accepted_text(mem, ptr, text@),
            r matches Ok(text) ==> encode_utf8(text@).len() + 5 <= MAX_MEMORY_BYTES,
            r matches Err(SandboxError::MissingExport(n)) ==> n@ == "memory"@ || n@ == "alloc"@
                || n@ == "interpret"@,
    {
        if payload.len() > MAX_MEMORY_BYTES {
            return Err(SandboxError::InputOverflow(payload.len()));
        }
        let mut session = match instantiate(self.engine, &self.module, MAX_MEMORY_BYTES, FUEL_LIMIT) {
            Ok(s) => s,
            Err(e) => return Err(SandboxError::Engine(e)),
        };
        bind_common(&mut session)?;
        if !session.bind_interpret("interpret") {
            return Err(SandboxError::MissingExport(String::from_str("interpret")));
        }
        let ptr = match session.call_alloc(payload.len() as i32) {
            Ok(p) => p,
            Err(e) => return Err(SandboxError::Engine(e)),
        };
        let ptr = place(&mut session, ptr, payload)?;
        let result = match session.call_interpret(ptr, payload) {
            Ok(p) => p,
            Err(e) => return Err(SandboxError::Engine(e)),
        };
        let mem = session.data();
        let r = read_output_text(mem, result);
        proof {
            if r is Ok {
                lemma_block_within_ceiling(mem@, result);
                vstd::utf8::decode_utf8_encode_utf8(output_block(mem@, result)->Ok_0);
                assert(accepted_text(mem@, result, (r->Ok_0)@));
            }
        }
        r
    }

    /// Runs the guest's `assemble(payload_ptr, payload_len, sig_ptr,
    /// sig_len)` in a fresh store. All exports are looked up before any guest
    /// function runs; the payload and the signature are copied to two
    /// disjoint buffers from the guest's `alloc`, and `assemble` is called
    /// with both pairs. The bytes returned are an output block that lay
    /// wholly inside a memory within the ceiling.
    pub fn assemble(&self, payload: &[u8], signature: &[u8]) -> (r: Result<Vec<u8>, SandboxError>)
        ensures
            payload@.len() > MAX_MEMORY_BYTES ==> (r matches Err(SandboxError::InputOverflow(n))
                && n == payload@.len()),
            payload@.len() <= MAX_MEMORY_BYTES && signature@.len() > MAX_MEMORY_BYTES ==> (
            r matches Err(SandboxError::InputOverflow(n)) && n == signature@.len()),
            r matches Ok(bytes) ==> exists|mem: Seq<u8>, ptr: i32|
                mem.len() <= MAX_MEMORY_BYTES && #[trigger] output_block(mem, ptr) == Ok::<
                    Seq<u8>,
                    BlockFault,
                >(bytes@),
            r matches Ok(bytes) ==> bytes@.len() + 5 <= MAX_MEMORY_BYTES,
            r matches Err(SandboxError::MissingExport(n)) ==> n@ == "memory"@ || n@ == "alloc"@
                || n@ == "assemble"@,
    {
        if payload.len() > MAX_MEMORY_BYTES {
            return Err(SandboxError::InputOverflow(payload.len()));
        }
        if signature.len() > MAX_MEMORY_BYTES {
            return Err(SandboxError::InputOverflow(signature.len()));
        }
        let mut session = match instantiate(self.engine, &self.module, MAX_MEMORY_BYTES, FUEL_LIMIT) {
            Ok(s) => s,
            Err(e) => return Err(SandboxError::Engine(e)),
        };
        bind_common(&mut session)?;
        if !session.bind_assemble("assemble") {
            return Err(SandboxError::MissingExport(String::from_str("assemble")));
        }
        let payload_ptr = match session.call_alloc(payload.len() as i32) {
            Ok(p) => p,
            Err(e) => return Err(SandboxError::Engine(e)),
        };
        let sig_ptr = match session.call_alloc(signature.len() as i32) {
            Ok(p) => p,
            Err(e) => return Err(SandboxError::Engine(e)),
        };
        let payload_ptr = place(&mut session, payload_ptr, payload)?;
        let ghost after_payload = guest_memory(session);
        let sig_ptr = place(&mut session, sig_ptr, signature)?;
        let p_off = offset_of(payload_ptr);
        let s_off = offset_of(sig_ptr);
        if !(p_off + payload.len() as u64 <= s_off || s_off + signature.len() as u64 <= p_off) {
            return Err(SandboxError::InputOverlap);
        }
        proof {
            lemma_write_beside(after_payload, guest_offset(sig_ptr) as int, signature@, payload_ptr, payload@);
        }
        let result = match session.call_assemble(payload_ptr, payload, sig_ptr, signature) {
            Ok(p) => p,
            Err(e) => return Err(SandboxError::Engine(e)),
        };
        let mem = session.data();
        let r = read_output_block(mem, result);
        proof {
            if r is Ok {
                lemma_block_within_ceiling(mem@, result);
            }
        }
        r
    }
}

/// The offset that a guest pointer denotes.
fn offset_of(ptr: i32) -> (o: u64)
    ensures
        o == guest_offset(ptr),
{
    if ptr >= 0 {
        ptr as u64
    } else {
        (ptr as i64 + 0x1_0000_0000) as u64
    }
}

} // verus!

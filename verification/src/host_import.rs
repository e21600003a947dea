//! Host methods, and the byte protocol through which a guest calls them.
//!
//! A guest names a host method and passes its parameters as bytes in its own
//! memory. [`universal_invoke`] reads the call out of that memory, finds the
//! handler in a [`HostMethodRegistry`], runs it, and writes the answer back:
//! a status word, a length word and the payload, in that order.
//! [`invoke_in_memory`] does the same on a slice of bytes.

use vstd::prelude::*;
use vstd::utf8::{decode_utf8, valid_utf8};
use crate::table::Table;
use vstd::slice::{slice_subrange, slice_to_vec};
use vstd::string::StrSliceExecFns;
use vstd::utf8::encode_utf8;
use crate::utils::{
    exported_memory, exports_memory, guest_memory_mut, le_bytes_u32, memory_after_write,
    read_wasm_memory, region_in_bounds, string_from_utf8, u32_from_le_bytes, u32_of_le_bytes,
    u32_to_le_bytes, write_at,
};
use wasmtime::Caller;
use wasmtime_wasi::WasiCtx;

verus! {

/// How the bytes of a call's parameters and answer are encoded. The host only
/// hands the format on: handler and guest agree on what it means.
#[derive(Debug, Clone, Copy, PartialEq, Eq, Structural)]
pub enum SerializationFormat {
    /// JSON text.
    Json,
    /// Bincode.
    Bincode,
    /// Protocol Buffers.
    Protobuf,
    /// FlatBuffers.
    FlatBuffers,
}

/// The call was dispatched and its answer written.
pub const INVOKE_OK: i32 = 0;

/// The method name is unreadable, is not UTF-8, or names no registered method.
pub const INVOKE_METHOD_NOT_FOUND: i32 = 1;

/// The format number is unknown, or the parameters are unreadable.
pub const INVOKE_FORMAT_ERROR: i32 = 2;

/// The answer does not fit into the guest's memory at the place given.
pub const INVOKE_WRITE_ERROR: i32 = 3;

/// The offset that the placeholder allocator hands out.
pub const HOST_ALLOC_BASE: i32 = 0x100000;

/// The format that a number on the wire stands for.
pub open spec fn format_of(discriminant: int) -> Option<SerializationFormat> {
    if discriminant == 0 {
        Some(SerializationFormat::Json)
    } else if discriminant == 1 {
        Some(SerializationFormat::Bincode)
    } else if discriminant == 2 {
        Some(SerializationFormat::Protobuf)
    } else if discriminant == 3 {
        Some(SerializationFormat::FlatBuffers)
    } else {
        None
    }
}

/// The number on the wire that stands for a format.
pub open spec fn discriminant_of(format: SerializationFormat) -> int {
    match format {
        SerializationFormat::Json => 0,
        SerializationFormat::Bincode => 1,
        SerializationFormat::Protobuf => 2,
        SerializationFormat::FlatBuffers => 3,
    }
}

impl SerializationFormat {
    /// The format that `discriminant` stands for, if it stands for one.
    pub fn from_discriminant(discriminant: i32) -> (format: Option<SerializationFormat>)
        ensures
            format == format_of(discriminant as int),
    {
        if discriminant == 0 {
            Some(SerializationFormat::Json)
        } else if discriminant == 1 {
            Some(SerializationFormat::Bincode)
        } else if discriminant == 2 {
            Some(SerializationFormat::Protobuf)
        } else if discriminant == 3 {
            Some(SerializationFormat::FlatBuffers)
        } else {
            None
        }
    }

    /// The number that stands for this format.
    pub fn discriminant(self) -> (discriminant: i32)
        ensures
            discriminant == discriminant_of(self),
    {
        match self {
            SerializationFormat::Json => 0,
            SerializationFormat::Bincode => 1,
            SerializationFormat::Protobuf => 2,
            SerializationFormat::FlatBuffers => 3,
        }
    }
}

/// Every format has a number, and the number stands for that format alone.
pub proof fn lemma_format_round_trip(format: SerializationFormat, discriminant: int)
    ensures
        format_of(discriminant_of(format)) == Some(format),
        format_of(discriminant) is Some <==> 0 <= discriminant <= 3,
        format_of(discriminant) == Some(format) ==> discriminant_of(format) == discriminant,
{
}

/// Whether `handler` can be called with every parameter string in every
/// format.
pub open spec fn accepts_every_call<H: Fn(Vec<u8>, SerializationFormat) -> (bool, Vec<u8>)>(
    handler: H,
) -> bool {
    forall|params: Vec<u8>, format: SerializationFormat| call_requires(handler, (params, format))
}

/// The methods that the host offers to its guests, each under its own name.
///
/// Registering and withdrawing take the registry exclusively, looking up
/// and serving a call take it shared: a host that shares one registry among
/// threads puts it behind a lock and has the same discipline from the lock.
pub struct HostMethodRegistry<H: Fn(Vec<u8>, SerializationFormat) -> (bool, Vec<u8>)> {
    methods: Table<H>,
}

/// The registry after `handler` was offered under `name`: a name that is
/// taken keeps its handler.
pub open spec fn methods_after_register<H>(
    methods: Map<Seq<char>, H>,
    name: Seq<char>,
    handler: H,
) -> Map<Seq<char>, H> {
    if methods.contains_key(name) {
        methods
    } else {
        methods.insert(name, handler)
    }
}

impl<H: Fn(Vec<u8>, SerializationFormat) -> (bool, Vec<u8>)> HostMethodRegistry<H> {
    #[verifier::type_invariant]
    spec fn handlers_accept_every_call(self) -> bool {
        forall|name: Seq<char>| #[trigger]
            self.methods@.contains_key(name) ==> accepts_every_call(self.methods@[name])
    }

    /// The handler of each registered name.
    pub closed spec fn view(self) -> Map<Seq<char>, H> {
        self.methods@
    }

    /// A registry without methods.
    pub fn new() -> (registry: Self)
        ensures
            registry@ == Map::<Seq<char>, H>::empty(),
    {
        HostMethodRegistry { methods: Table::new() }
    }
}

/// Offers `handler` to guests under `method_name`, unless the name is taken.
///
/// Returns whether the handler was registered. A name that is taken keeps the
/// handler it has.
pub fn register_host_method<H: Fn(Vec<u8>, SerializationFormat) -> (bool, Vec<u8>)>(
    registry: &mut HostMethodRegistry<H>,
    method_name: &str,
    handler: H,
) -> (registered: bool)
    requires
        accepts_every_call(handler),
    ensures
        registered == !old(registry)@.contains_key(method_name@),
        final(registry)@ == methods_after_register(old(registry)@, method_name@, handler),
{
    proof {
        use_type_invariant(&*registry);
    }
    if registry.methods.contains_key(method_name) {
        return false;
    }
    let mut methods: Table<H> = Table::new();
    core::mem::swap(&mut registry.methods, &mut methods);
    methods.insert(method_name, handler);
    registry.methods = methods;
    true
}

/// Withdraws the method registered under `method_name`.
///
/// Returns whether there was one. Every other method stays as it is.
pub fn unregister_host_method<H: Fn(Vec<u8>, SerializationFormat) -> (bool, Vec<u8>)>(
    registry: &mut HostMethodRegistry<H>,
    method_name: &str,
) -> (removed: bool)
    ensures
        removed == old(registry)@.contains_key(method_name@),
        final(registry)@ == old(registry)@.remove(method_name@),
{
    proof {
        use_type_invariant(&*registry);
    }
    let mut methods: Table<H> = Table::new();
    core::mem::swap(&mut registry.methods, &mut methods);
    let previous = methods.remove(method_name);
    registry.methods = methods;
    previous.is_some()
}

/// Whether a method is registered under `method_name`.
pub fn has_host_method<H: Fn(Vec<u8>, SerializationFormat) -> (bool, Vec<u8>)>(
    registry: &HostMethodRegistry<H>,
    method_name: &str,
) -> (present: bool)
    ensures
        present == registry@.contains_key(method_name@),
{
    registry.methods.contains_key(method_name)
}

/// Registering a free name succeeds and binds it; registering the same name
/// again fails and leaves the first handler in place.
pub proof fn lemma_second_registration_is_refused<H>(
    methods: Map<Seq<char>, H>,
    name: Seq<char>,
    first: H,
    second: H,
)
    requires
        !methods.contains_key(name),
    ensures
        methods_after_register(methods, name, first).contains_key(name),
        methods_after_register(methods, name, first)[name] == first,
        methods_after_register(methods_after_register(methods, name, first), name, second)
            == methods_after_register(methods, name, first),
{
}

/// Withdrawing a name that is not registered changes nothing, and withdrawing
/// any name leaves every other name with its handler.
pub proof fn lemma_unregister_leaves_others<H>(
    methods: Map<Seq<char>, H>,
    name: Seq<char>,
    other: Seq<char>,
)
    ensures
        !methods.contains_key(name) ==> methods.remove(name) == methods,
        other != name ==> methods.remove(name).contains_key(other) == methods.contains_key(other),
        other != name && methods.contains_key(other) ==> methods.remove(name)[other]
            == methods[other],
{
    if !methods.contains_key(name) {
        assert(methods.remove(name) =~= methods);
    }
}

/// The answer of a handler that may fail outright: a failure is an answer
/// without success whose payload is the failure's words.
pub open spec fn answer_of(outcome: Result<(bool, Vec<u8>), String>) -> (bool, Seq<u8>) {
    match outcome {
        Ok(answer) => (answer.0, answer.1@),
        Err(cause) => (false, encode_utf8(cause@)),
    }
}

/// Turns the outcome of a handler that may fail outright into an answer, so
/// that a handler's failure reaches the guest in the status word and never
/// as a code of the protocol.
pub fn handler_answer(outcome: Result<(bool, Vec<u8>), String>) -> (answer: (bool, Vec<u8>))
    ensures
        (answer.0, answer.1@) == answer_of(outcome),
{
    match outcome {
        Ok(answer) => answer,
        Err(cause) => (false, cause.as_str().as_bytes_vec()),
    }
}

/// A guest's call, as it stands in the guest's memory.
pub struct CallRequest {
    /// The name of the method.
    pub name: Seq<char>,
    /// The format of the parameters.
    pub format: SerializationFormat,
    /// The parameters.
    pub params: Seq<u8>,
}

/// A guest's call, read out of the guest's memory.
#[derive(Debug, Clone, PartialEq, Eq)]
pub struct HostCall {
    /// The name of the method.
    pub method_name: String,
    /// The format of the parameters.
    pub format: SerializationFormat,
    /// The parameters.
    pub params: Vec<u8>,
}

impl View for HostCall {
    type V = CallRequest;

    open spec fn view(&self) -> CallRequest {
        CallRequest { name: self.method_name@, format: self.format, params: self.params@ }
    }
}

/// The call that stands in `memory`, or the code with which it is refused.
///
/// The checks are made in this order: the name is readable and is UTF-8
/// (else 1), the format number is known (else 2), the parameters are
/// readable (else 2).
pub open spec fn request_at(
    memory: Seq<u8>,
    method_name_ptr: int,
    method_name_len: int,
    format_type: int,
    params_ptr: int,
    params_len: int,
) -> Result<CallRequest, i32> {
    if !region_in_bounds(memory.len(), method_name_ptr, method_name_len) {
        Err(INVOKE_METHOD_NOT_FOUND)
    } else if !valid_utf8(memory.subrange(method_name_ptr, method_name_ptr + method_name_len)) {
        Err(INVOKE_METHOD_NOT_FOUND)
    } else if format_of(format_type) is None {
        Err(INVOKE_FORMAT_ERROR)
    } else if !region_in_bounds(memory.len(), params_ptr, params_len) {
        Err(INVOKE_FORMAT_ERROR)
    } else {
        Ok(
            CallRequest {
                name: decode_utf8(
                    memory.subrange(method_name_ptr, method_name_ptr + method_name_len),
                ),
                format: format_of(format_type)->0,
                params: memory.subrange(params_ptr, params_ptr + params_len),
            },
        )
    }
}

/// The status word of an answer: 1 where the handler succeeded, else 0.
pub open spec fn status_word(success: bool) -> u32 {
    if success {
        1
    } else {
        0
    }
}

/// The length word of an answer: the payload's length, reduced to 32 bits.
pub open spec fn length_word(payload: Seq<u8>) -> u32 {
    (payload.len() % 0x1_0000_0000) as u32
}

/// The code returned and the memory left behind when an answer is written at
/// `ret_ptr`: the status word, then the length word, then the payload. The
/// first of the three that does not fit ends the writing with code 3; what
/// was written before it stays.
pub open spec fn response_written(
    memory: Seq<u8>,
    ret_ptr: int,
    success: bool,
    payload: Seq<u8>,
) -> (i32, Seq<u8>) {
    if !region_in_bounds(memory.len(), ret_ptr, 4) {
        (INVOKE_WRITE_ERROR, memory)
    } else {
        let with_status = memory_after_write(memory, ret_ptr, le_bytes_u32(status_word(success)));
        if !region_in_bounds(memory.len(), ret_ptr + 4, 4) {
            (INVOKE_WRITE_ERROR, with_status)
        } else {
            let with_length = memory_after_write(
                with_status,
                ret_ptr + 4,
                le_bytes_u32(length_word(payload)),
            );
            if !region_in_bounds(memory.len(), ret_ptr + 8, payload.len() as int) {
                (INVOKE_WRITE_ERROR, with_length)
            } else {
                (INVOKE_OK, memory_after_write(with_length, ret_ptr + 8, payload))
            }
        }
    }
}

/// The answer as it stands in memory: status word, length word, payload.
pub open spec fn response_bytes(success: bool, payload: Seq<u8>) -> Seq<u8> {
    le_bytes_u32(status_word(success)) + le_bytes_u32(length_word(payload)) + payload
}

/// Where the whole answer fits, it is written without gaps at `ret_ptr`, the
/// code is 0, and no byte outside the answer changes.
pub proof fn lemma_response_layout(memory: Seq<u8>, ret_ptr: int, success: bool, payload: Seq<u8>)
    requires
        region_in_bounds(memory.len(), ret_ptr, 8 + payload.len() as int),
    ensures
        response_written(memory, ret_ptr, success, payload).0 == INVOKE_OK,
        response_written(memory, ret_ptr, success, payload).1 == memory_after_write(
            memory,
            ret_ptr,
            response_bytes(success, payload),
        ),
        response_written(memory, ret_ptr, success, payload).1.len() == memory.len(),
        response_written(memory, ret_ptr, success, payload).1.subrange(
            ret_ptr,
            ret_ptr + 8 + payload.len(),
        ) == response_bytes(success, payload),
{
    let written = response_written(memory, ret_ptr, success, payload).1;
    let whole = memory_after_write(memory, ret_ptr, response_bytes(success, payload));
    assert(written =~= whole);
    assert(written.subrange(ret_ptr, ret_ptr + 8 + payload.len()) =~= response_bytes(
        success,
        payload,
    ));
}

/// The answer that a guest finds at `ret_ptr`: whether the handler
/// succeeded, and the payload. There is none where the two words, or the
/// payload whose length the second word gives, do not lie inside the memory.
pub open spec fn response_at(memory: Seq<u8>, ret_ptr: int) -> Option<(bool, Seq<u8>)> {
    if !region_in_bounds(memory.len(), ret_ptr, 8) {
        None
    } else {
        let status = u32_of_le_bytes(memory.subrange(ret_ptr, ret_ptr + 4));
        let length = u32_of_le_bytes(memory.subrange(ret_ptr + 4, ret_ptr + 8));
        if !region_in_bounds(memory.len(), ret_ptr + 8, length) {
            None
        } else {
            Some((status == 1, memory.subrange(ret_ptr + 8, ret_ptr + 8 + length)))
        }
    }
}

/// Reads the answer that stands at `ret_ptr`, as the guest does after a call
/// that was served.
pub fn read_response(memory: &[u8], ret_ptr: i32) -> (answer: Option<(bool, Vec<u8>)>)
    ensures
        match response_at(memory@, ret_ptr as int) {
            Some(expected) => answer matches Some(found) && found.0 == expected.0 && found.1@
                == expected.1,
            None => answer is None,
        },
{
    let memory_len: usize = memory.len();
    if ret_ptr < 0 {
        return None;
    }
    let start: usize = ret_ptr as usize;
    if start > memory_len || 8 > memory_len - start {
        return None;
    }
    let status = u32_from_le_bytes(slice_subrange(memory, start, start + 4));
    let length = u32_from_le_bytes(slice_subrange(memory, start + 4, start + 8));
    let count: usize = length as usize;
    if count > memory_len - start - 8 {
        return None;
    }
    let payload = slice_to_vec(slice_subrange(memory, start + 8, start + 8 + count));
    Some((status == 1, payload))
}

/// An answer that was written whole is read back as it was written: the
/// same status and the same payload.
pub proof fn lemma_response_round_trip(
    memory: Seq<u8>,
    ret_ptr: int,
    success: bool,
    payload: Seq<u8>,
)
    requires
        region_in_bounds(memory.len(), ret_ptr, 8 + payload.len() as int),
        payload.len() <= u32::MAX,
    ensures
        response_at(response_written(memory, ret_ptr, success, payload).1, ret_ptr) == Some(
            (success, payload),
        ),
{
    lemma_response_layout(memory, ret_ptr, success, payload);
    let written = response_written(memory, ret_ptr, success, payload).1;
    let answer = written.subrange(ret_ptr, ret_ptr + 8 + payload.len());
    assert(written.subrange(ret_ptr, ret_ptr + 4) == answer.subrange(0, 4));
    assert(written.subrange(ret_ptr + 4, ret_ptr + 8) == answer.subrange(4, 8));
    assert(answer.subrange(0, 4) == le_bytes_u32(status_word(success)));
    assert(answer.subrange(4, 8) == le_bytes_u32(length_word(payload)));
    crate::utils::lemma_le_bytes_round_trip(status_word(success));
    crate::utils::lemma_le_bytes_round_trip(length_word(payload));
    assert(written.subrange(ret_ptr + 8, ret_ptr + 8 + payload.len()) == payload);
}

/// Whether `code` and `after` are what a guest's call can leave behind, given
/// the registry and the memory before the call.
///
/// A call that is refused changes nothing. A call that reaches a handler
/// leaves what writing the handler's answer leaves.
pub open spec fn invocation_outcome<H: Fn(Vec<u8>, SerializationFormat) -> (bool, Vec<u8>)>(
    methods: Map<Seq<char>, H>,
    memory: Seq<u8>,
    method_name_ptr: int,
    method_name_len: int,
    format_type: int,
    params_ptr: int,
    params_len: int,
    ret_ptr: int,
    code: i32,
    after: Seq<u8>,
) -> bool {
    match request_at(
        memory,
        method_name_ptr,
        method_name_len,
        format_type,
        params_ptr,
        params_len,
    ) {
        Err(refusal) => code == refusal && after == memory,
        Ok(request) => if !methods.contains_key(request.name) {
            code == INVOKE_METHOD_NOT_FOUND && after == memory
        } else {
            exists|params: Vec<u8>, answer: (bool, Vec<u8>)|
                {
                    &&& params@ == request.params
                    &&& #[trigger] call_ensures(
                        methods[request.name],
                        (params, request.format),
                        answer,
                    )
                    &&& (code, after) == response_written(memory, ret_ptr, answer.0, answer.1@)
                }
        },
    }
}

/// Reads a guest's call out of its memory.
pub fn decode_request(
    memory: &[u8],
    method_name_ptr: i32,
    method_name_len: i32,
    format_type: i32,
    params_ptr: i32,
    params_len: i32,
) -> (result: Result<HostCall, i32>)
    ensures
        match request_at(
            memory@,
            method_name_ptr as int,
            method_name_len as int,
            format_type as int,
            params_ptr as int,
            params_len as int,
        ) {
            Ok(request) => result matches Ok(call) && call@ == request,
            Err(code) => result == Err::<HostCall, i32>(code),
        },
{
    let name_bytes = match read_wasm_memory(memory, method_name_ptr, method_name_len) {
        Ok(bytes) => bytes,
        Err(_) => {
            return Err(INVOKE_METHOD_NOT_FOUND);
        },
    };
    let ghost name_seq = name_bytes@;
    let method_name = match string_from_utf8(name_bytes) {
        Some(name) => name,
        None => {
            return Err(INVOKE_METHOD_NOT_FOUND);
        },
    };
    proof {
        vstd::utf8::encode_utf8_decode_utf8(method_name@);
    }
    let format = match SerializationFormat::from_discriminant(format_type) {
        Some(format) => format,
        None => {
            return Err(INVOKE_FORMAT_ERROR);
        },
    };
    let params = match read_wasm_memory(memory, params_ptr, params_len) {
        Ok(bytes) => bytes,
        Err(_) => {
            return Err(INVOKE_FORMAT_ERROR);
        },
    };
    Ok(HostCall { method_name, format, params })
}

/// Writes a handler's answer into the guest's memory at `ret_ptr`.
pub fn write_response(memory: &mut [u8], ret_ptr: i32, success: bool, payload: &[u8]) -> (code:
    i32)
    ensures
        (code, final(memory)@) == response_written(
            old(memory)@,
            ret_ptr as int,
            success,
            payload@,
        ),
{
    let status: u32 = if success {
        1
    } else {
        0
    };
    let status_bytes = u32_to_le_bytes(status);
    if ret_ptr < 0 {
        return INVOKE_WRITE_ERROR;
    }
    let start: usize = ret_ptr as usize;
    if !write_at(memory, start, status_bytes.as_slice()) {
        return INVOKE_WRITE_ERROR;
    }
    let length: u32 = (payload.len() as u64 % 0x1_0000_0000) as u32;
    let length_bytes = u32_to_le_bytes(length);
    if !write_at(memory, start + 4, length_bytes.as_slice()) {
        return INVOKE_WRITE_ERROR;
    }
    if !write_at(memory, start + 8, payload) {
        return INVOKE_WRITE_ERROR;
    }
    INVOKE_OK
}

/// Serves one call of a guest whose memory is `memory`.
///
/// The call is read out of `memory`, its method is looked up in `registry`
/// and run, and the answer is written back at `ret_ptr`. The code returned
/// says whether the call was served (0) or why not; whether the method itself
/// succeeded stands in the answer's status word, not in the code.
pub fn invoke_in_memory<H: Fn(Vec<u8>, SerializationFormat) -> (bool, Vec<u8>)>(
    registry: &HostMethodRegistry<H>,
    memory: &mut [u8],
    method_name_ptr: i32,
    method_name_len: i32,
    format_type: i32,
    params_ptr: i32,
    params_len: i32,
    ret_ptr: i32,
) -> (code: i32)
    ensures
        invocation_outcome(
            registry@,
            old(memory)@,
            method_name_ptr as int,
            method_name_len as int,
            format_type as int,
            params_ptr as int,
            params_len as int,
            ret_ptr as int,
            code,
            final(memory)@,
        ),
{
    proof {
        use_type_invariant(registry);
    }
    let call = match decode_request(
        memory,
        method_name_ptr,
        method_name_len,
        format_type,
        params_ptr,
        params_len,
    ) {
        Ok(call) => call,
        Err(code) => {
            return code;
        },
    };
    let HostCall { method_name, format, params } = call;
    match registry.methods.get(method_name.as_str()) {
        None => INVOKE_METHOD_NOT_FOUND,
        Some(handler) => {
            let ghost given = params;
            let answer = handler(params, format);
            let code = write_response(memory, ret_ptr, answer.0, answer.1.as_slice());
            proof {
                assert(call_ensures(registry@[method_name@], (given, format), answer));
            }
            code
        },
    }
}

/// A call whose method name is readable UTF-8 and whose format number is
/// unknown is refused with code 2, and the guest's memory stays as it was.
pub proof fn lemma_unknown_format_is_refused<H: Fn(Vec<u8>, SerializationFormat) -> (bool, Vec<u8>)>(
    methods: Map<Seq<char>, H>,
    memory: Seq<u8>,
    method_name_ptr: int,
    method_name_len: int,
    format_type: int,
    params_ptr: int,
    params_len: int,
    ret_ptr: int,
    code: i32,
    after: Seq<u8>,
)
    requires
        !(0 <= format_type <= 3),
        region_in_bounds(memory.len(), method_name_ptr, method_name_len),
        valid_utf8(memory.subrange(method_name_ptr, method_name_ptr + method_name_len)),
        invocation_outcome(
            methods,
            memory,
            method_name_ptr,
            method_name_len,
            format_type,
            params_ptr,
            params_len,
            ret_ptr,
            code,
            after,
        ),
    ensures
        code == INVOKE_FORMAT_ERROR,
        after == memory,
{
}

/// The name under which a guest exports its memory.
pub open spec fn guest_memory_name() -> Seq<char> {
    "memory"@
}

/// Serves one call of the guest `caller`.
///
/// A guest that exports no memory is answered with code 1 and nothing
/// changes. Otherwise the call is served in the guest's memory as
/// [`invoke_in_memory`] serves it.
pub fn universal_invoke<H: Fn(Vec<u8>, SerializationFormat) -> (bool, Vec<u8>)>(
    registry: &HostMethodRegistry<H>,
    caller: &mut Caller<'_, WasiCtx>,
    method_name_ptr: i32,
    method_name_len: i32,
    format_type: i32,
    params_ptr: i32,
    params_len: i32,
    ret_ptr: i32,
) -> (code: i32)
    ensures
        exports_memory(*final(caller), guest_memory_name()) == exports_memory(
            *old(caller),
            guest_memory_name(),
        ),
        !exports_memory(*old(caller), guest_memory_name()) ==> code == INVOKE_METHOD_NOT_FOUND
            && exported_memory(*final(caller), guest_memory_name()) == exported_memory(
            *old(caller),
            guest_memory_name(),
        ),
        exports_memory(*old(caller), guest_memory_name()) ==> invocation_outcome(
            registry@,
            exported_memory(*old(caller), guest_memory_name()),
            method_name_ptr as int,
            method_name_len as int,
            format_type as int,
            params_ptr as int,
            params_len as int,
            ret_ptr as int,
            code,
            exported_memory(*final(caller), guest_memory_name()),
        ),
{
    match guest_memory_mut(caller, "memory") {
        None => INVOKE_METHOD_NOT_FOUND,
        Some(memory) => invoke_in_memory(
            registry,
            memory,
            method_name_ptr,
            method_name_len,
            format_type,
            params_ptr,
            params_len,
            ret_ptr,
        ),
    }
}

/// The placeholder allocator: one fixed offset for every request, and -1
/// where the guest exports no memory. The guest's memory stays as it is.
pub fn host_malloc(caller: &mut Caller<'_, WasiCtx>, size: i32) -> (ptr: i32)
    ensures
        ptr == if exports_memory(*old(caller), guest_memory_name()) {
            HOST_ALLOC_BASE
        } else {
            -1i32
        },
        exports_memory(*final(caller), guest_memory_name()) == exports_memory(
            *old(caller),
            guest_memory_name(),
        ),
        exported_memory(*final(caller), guest_memory_name()) == exported_memory(
            *old(caller),
            guest_memory_name(),
        ),
{
    match guest_memory_mut(caller, "memory") {
        Some(_) => HOST_ALLOC_BASE,
        None => -1,
    }
}

/// The placeholder allocator's release: nothing is held, so nothing is freed
/// and nothing changes.
pub fn host_free(caller: &mut Caller<'_, WasiCtx>, ptr: i32)
    ensures
        *final(caller) == *old(caller),
{
}

} // verus!

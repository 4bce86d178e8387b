//! Bookkeeping of the memshare service: which guest-physical (IPA) areas are free for
//! each kind of shared buffer, and the lifetime of one shared buffer.

use vstd::prelude::*;
use vstd::string::StringExecFns;

verus! {

/// Protection identifier of a host buffer.
pub const HOST_BUFFER: i32 = 0;

/// Protection identifier of a secure display frame buffer.
pub const SECURE_DISPLAY_FRAME_BUFFER: i32 = 1;

/// Protection identifier of a secure video decoder input buffer.
pub const SECURE_VIDEO_DECODER_INPUT: i32 = 2;

/// Base address of the first host buffer area.
pub const HOST_BUFFER_1_BASE_ADDRESS: u64 = 0x8000_0000 + 64 * 1024 * 1024;

/// Largest host buffer that can be shared.
pub const HOST_BUFFER_MAX_SUPPORTED_SIZE: u64 = 64 * 1024 * 1024;

/// Base address of the second host buffer area.
pub const HOST_BUFFER_2_BASE_ADDRESS: u64 = HOST_BUFFER_1_BASE_ADDRESS + HOST_BUFFER_MAX_SUPPORTED_SIZE;

/// Granule that every shared buffer size is a multiple of.
pub const BUFFERS_BASE_SIZE: u64 = 4096;

/// Base address of the secure buffer area.
pub const SECURE_BUFFER_BASE_ADDRESS: u64 = 0x9000_0000;

/// Largest secure buffer that can be shared.
pub const SECURE_BUFFER_MAX_SUPPORTED_SIZE: u64 = 64 * 1024 * 1024;

/// What a failed mapping of a buffer into the VM is reported as by the VM layer.
pub const ERROR_MAPPING_MEMORY: i32 = -1;

/// Errors of the memshare service.
#[derive(Clone, Debug)]
pub enum MemShareError {
    BinderError(String),
    ConversionError,
    InvalidValue,
    AllocationError,
    InvalidState,
    BufferMappingProblem,
    GenericError(String),
}

/// The message an error is displayed with.
pub open spec fn message_of(e: MemShareError) -> Seq<char> {
    match e {
        MemShareError::BinderError(port) => "Port configuration error for port: "@ + port@,
        MemShareError::ConversionError => "Couldn't convert value"@,
        MemShareError::InvalidValue => "Invalid value provided"@,
        MemShareError::AllocationError => "Resources exhausted"@,
        MemShareError::InvalidState => "System was found on an invalid state"@,
        MemShareError::BufferMappingProblem => "Error found when mapping buffer"@,
        MemShareError::GenericError(what) => "An error occurred: "@ + what@,
    }
}

impl MemShareError {
    /// The message the error is displayed with.
    pub fn message(&self) -> (r: String)
        ensures
            r@ == message_of(*self),
    {
        match self {
            MemShareError::BinderError(port) => "Port configuration error for port: ".to_owned().concat(
                port.as_str(),
            ),
            MemShareError::ConversionError => "Couldn't convert value".to_owned(),
            MemShareError::InvalidValue => "Invalid value provided".to_owned(),
            MemShareError::AllocationError => "Resources exhausted".to_owned(),
            MemShareError::InvalidState => "System was found on an invalid state".to_owned(),
            MemShareError::BufferMappingProblem => "Error found when mapping buffer".to_owned(),
            MemShareError::GenericError(what) => "An error occurred: ".to_owned().concat(
                what.as_str(),
            ),
        }
    }
}

/// Kind of memory a shared buffer is.
#[derive(Copy, Clone, Debug, PartialEq, Eq, Structural)]
pub enum ProtectionId {
    HostBuffer,
    SecureDisplayFrameBuffer,
    SecureVideoDecoderInput,
}

/// The protection identifier that a wire value stands for.
pub open spec fn protection_id_of(value: i32) -> Option<ProtectionId> {
    if value == HOST_BUFFER {
        Some(ProtectionId::HostBuffer)
    } else if value == SECURE_DISPLAY_FRAME_BUFFER {
        Some(ProtectionId::SecureDisplayFrameBuffer)
    } else if value == SECURE_VIDEO_DECODER_INPUT {
        Some(ProtectionId::SecureVideoDecoderInput)
    } else {
        None
    }
}

impl ProtectionId {
    /// Convert a wire value into a protection identifier.
    pub fn try_from(value: i32) -> (r: Result<ProtectionId, MemShareError>)
        ensures
            match protection_id_of(value) {
                Some(id) => r == Ok::<ProtectionId, MemShareError>(id),
                None => r == Err::<ProtectionId, MemShareError>(MemShareError::ConversionError),
            },
    {
        if value == HOST_BUFFER {
            Ok(ProtectionId::HostBuffer)
        } else if value == SECURE_DISPLAY_FRAME_BUFFER {
            Ok(ProtectionId::SecureDisplayFrameBuffer)
        } else if value == SECURE_VIDEO_DECODER_INPUT {
            Ok(ProtectionId::SecureVideoDecoderInput)
        } else {
            Err(MemShareError::ConversionError)
        }
    }
}

/// The IPA range that a shared buffer occupies.
#[derive(Clone, Debug)]
pub struct MemoryRange {
    pub protection_id: ProtectionId,
    pub range_ipa_start: u64,
    pub range_size: u64,
}

/// The largest buffer of a kind that can be shared, for the kinds that can be shared.
pub open spec fn max_buffer_size(id: ProtectionId) -> Option<u64> {
    match id {
        ProtectionId::HostBuffer => Some(HOST_BUFFER_MAX_SUPPORTED_SIZE),
        ProtectionId::SecureDisplayFrameBuffer => Some(SECURE_BUFFER_MAX_SUPPORTED_SIZE),
        ProtectionId::SecureVideoDecoderInput => None,
    }
}

/// Mathematical model of a [`MemoryManager`]: the free areas, as `(base, size)` pairs,
/// of host buffers and of secure buffers. The next area handed out is the last one.
pub struct MemoryManagerView {
    pub host: Seq<(u64, u64)>,
    pub secure: Seq<(u64, u64)>,
}

impl MemoryManagerView {
    /// The free areas for a kind of buffer (none for a kind that cannot be shared).
    pub open spec fn pool(self, id: ProtectionId) -> Seq<(u64, u64)> {
        match id {
            ProtectionId::HostBuffer => self.host,
            ProtectionId::SecureDisplayFrameBuffer => self.secure,
            ProtectionId::SecureVideoDecoderInput => Seq::empty(),
        }
    }

    /// The manager with the free areas of kind `id` replaced by `p`.
    pub open spec fn with_pool(self, id: ProtectionId, p: Seq<(u64, u64)>) -> MemoryManagerView {
        match id {
            ProtectionId::HostBuffer => MemoryManagerView { host: p, ..self },
            ProtectionId::SecureDisplayFrameBuffer => MemoryManagerView { secure: p, ..self },
            ProtectionId::SecureVideoDecoderInput => self,
        }
    }

    /// What returning the area `[base, base + size)` to the manager answers, and the
    /// manager after it.
    pub open spec fn add_area_outcome(self, id: ProtectionId, base: u64, size: u64) -> (
        Result<(), MemShareError>,
        MemoryManagerView,
    ) {
        match max_buffer_size(id) {
            None => (Err(MemShareError::InvalidValue), self),
            Some(max) => if size > max {
                (Err(MemShareError::InvalidValue), self)
            } else {
                (Ok(()), self.with_pool(id, self.pool(id).push((base, size))))
            },
        }
    }

    /// When a request for a buffer of `size_bytes` bytes passes the kind, size and
    /// availability checks, the end of the area it gets stays within the address space.
    pub open spec fn map_area_in_range(self, size_bytes: i32, id: ProtectionId) -> bool {
        let p = self.pool(id);
        (max_buffer_size(id) is Some && 0 <= size_bytes <= max_buffer_size(id)->0 && (
        size_bytes as int) % (BUFFERS_BASE_SIZE as int) == 0 && p.len() > 0) ==> p.last().0
            + size_bytes <= u64::MAX
    }

    /// What asking for an area for a buffer of `size_bytes` bytes answers (the buffer's
    /// IPA start and end), and the manager after it.
    pub open spec fn map_area_outcome(self, size_bytes: i32, id: ProtectionId) -> (
        Result<(u64, u64), MemShareError>,
        MemoryManagerView,
    ) {
        match max_buffer_size(id) {
            None => (Err(MemShareError::InvalidValue), self),
            Some(max) => if size_bytes < 0 || size_bytes > max {
                (Err(MemShareError::InvalidValue), self)
            } else if (size_bytes as int) % (BUFFERS_BASE_SIZE as int) != 0 {
                (Err(MemShareError::InvalidValue), self)
            } else if self.pool(id).len() == 0 {
                (Err(MemShareError::AllocationError), self)
            } else {
                let area = self.pool(id).last();
                (
                    Ok((area.0, (area.0 + size_bytes) as u64)),
                    self.with_pool(id, self.pool(id).drop_last()),
                )
            },
        }
    }
}

/// Free IPA areas for each kind of shareable buffer.
pub struct MemoryManager {
    buffers: Vec<(u64, u64)>,
    secure_buffers: Vec<(u64, u64)>,
}

impl View for MemoryManager {
    type V = MemoryManagerView;

    closed spec fn view(&self) -> MemoryManagerView {
        MemoryManagerView { host: self.buffers@, secure: self.secure_buffers@ }
    }
}

impl MemoryManager {
    /// The manager with its fixed set of areas: two host buffer areas, handed out lowest
    /// first, and one secure buffer area.
    pub fn new() -> (r: Self)
        ensures
            r@.host == seq![
                (HOST_BUFFER_2_BASE_ADDRESS, HOST_BUFFER_MAX_SUPPORTED_SIZE),
                (HOST_BUFFER_1_BASE_ADDRESS, HOST_BUFFER_MAX_SUPPORTED_SIZE),
            ],
            r@.secure == seq![(SECURE_BUFFER_BASE_ADDRESS, SECURE_BUFFER_MAX_SUPPORTED_SIZE)],
    {
        let buffers = vec![
            (HOST_BUFFER_2_BASE_ADDRESS, HOST_BUFFER_MAX_SUPPORTED_SIZE),
            (HOST_BUFFER_1_BASE_ADDRESS, HOST_BUFFER_MAX_SUPPORTED_SIZE),
        ];
        let secure_buffers = vec![(SECURE_BUFFER_BASE_ADDRESS, SECURE_BUFFER_MAX_SUPPORTED_SIZE)];
        let r = Self { buffers, secure_buffers };
        assert(r@.host =~= seq![
            (HOST_BUFFER_2_BASE_ADDRESS, HOST_BUFFER_MAX_SUPPORTED_SIZE),
            (HOST_BUFFER_1_BASE_ADDRESS, HOST_BUFFER_MAX_SUPPORTED_SIZE),
        ]);
        assert(r@.secure =~= seq![(SECURE_BUFFER_BASE_ADDRESS, SECURE_BUFFER_MAX_SUPPORTED_SIZE)]);
        r
    }

    /// The largest buffer of a kind that can be shared; `InvalidValue` for a kind that
    /// cannot be shared.
    pub fn get_buffer_max_size(protection_id: ProtectionId) -> (r: Result<u64, MemShareError>)
        ensures
            match max_buffer_size(protection_id) {
                Some(max) => r == Ok::<u64, MemShareError>(max),
                None => r == Err::<u64, MemShareError>(MemShareError::InvalidValue),
            },
    {
        match protection_id {
            ProtectionId::HostBuffer => Ok(HOST_BUFFER_MAX_SUPPORTED_SIZE),
            ProtectionId::SecureDisplayFrameBuffer => Ok(SECURE_BUFFER_MAX_SUPPORTED_SIZE),
            _ => Err(MemShareError::InvalidValue),
        }
    }

    /// The largest buffer of a kind and the free areas for that kind, to be changed in
    /// place; `InvalidValue` for a kind that cannot be shared.
    fn get_buffer_reference(&mut self, protection_id: ProtectionId) -> (r: Result<
        (u64, &mut Vec<(u64, u64)>),
        MemShareError,
    >)
        ensures
            match max_buffer_size(protection_id) {
                None => r == Err::<(u64, &mut Vec<(u64, u64)>), MemShareError>(
                    MemShareError::InvalidValue,
                ) && final(self)@ == old(self)@,
                Some(max) => r is Ok && r->Ok_0.0 == max && r->Ok_0.1@ == old(self)@.pool(
                    protection_id,
                ) && final(self)@ == old(self)@.with_pool(protection_id, final(r->Ok_0.1)@),
            },
    {
        let max_supported_size = match Self::get_buffer_max_size(protection_id) {
            Ok(size) => size,
            Err(e) => return Err(e),
        };
        match protection_id {
            ProtectionId::HostBuffer => Ok((max_supported_size, &mut self.buffers)),
            ProtectionId::SecureDisplayFrameBuffer => Ok(
                (max_supported_size, &mut self.secure_buffers),
            ),
            _ => Err(MemShareError::InvalidValue),
        }
    }

    /// Whether taking an area for a buffer of `size_bytes` bytes of kind `protection_id`
    /// stays within the address space, as [`MemoryManager::get_map_area`] requires.
    pub fn next_area_fits(&self, size_bytes: i32, protection_id: ProtectionId) -> (r: bool)
        ensures
            r == self@.map_area_in_range(size_bytes, protection_id),
    {
        let (max, pool) = match protection_id {
            ProtectionId::HostBuffer => (HOST_BUFFER_MAX_SUPPORTED_SIZE, &self.buffers),
            ProtectionId::SecureDisplayFrameBuffer => (
                SECURE_BUFFER_MAX_SUPPORTED_SIZE,
                &self.secure_buffers,
            ),
            ProtectionId::SecureVideoDecoderInput => {
                return true;
            },
        };
        if size_bytes < 0 || size_bytes as u64 > max || (size_bytes as u64) % BUFFERS_BASE_SIZE
            != 0 || pool.len() == 0 {
            return true;
        }
        let base = pool[pool.len() - 1].0;
        base <= u64::MAX - (size_bytes as u64)
    }

    /// Return the area `[base_address, base_address + size_bytes)` to the free areas of its
    /// kind. `InvalidValue` for a kind that cannot be shared or an area larger than the
    /// largest buffer of that kind.
    pub fn add_area(&mut self, protection_id: ProtectionId, base_address: u64, size_bytes: u64) -> (r:
        Result<(), MemShareError>)
        ensures
            (r, final(self)@) == old(self)@.add_area_outcome(protection_id, base_address, size_bytes),
    {
        let (supported_size, buffers) = match self.get_buffer_reference(protection_id) {
            Ok(pair) => pair,
            Err(e) => return Err(e),
        };
        if size_bytes > supported_size {
            return Err(MemShareError::InvalidValue);
        }
        buffers.push((base_address, size_bytes));
        Ok(())
    }

    /// Take a free area for a buffer of `size_bytes` bytes and answer the buffer's IPA
    /// start and end. The size must lie between zero and the largest buffer of the kind
    /// and be a multiple of the granule (else `InvalidValue`, as for a kind that cannot be
    /// shared); `AllocationError` when no area of the kind is free.
    pub fn get_map_area(&mut self, size_bytes: i32, protection_id: ProtectionId) -> (r: Result<
        (u64, u64),
        MemShareError,
    >)
        requires
            old(self)@.map_area_in_range(size_bytes, protection_id),
        ensures
            (r, final(self)@) == old(self)@.map_area_outcome(size_bytes, protection_id),
    {
        let (supported_size, buffers) = match self.get_buffer_reference(protection_id) {
            Ok(pair) => pair,
            Err(e) => return Err(e),
        };
        if (size_bytes < 0) || (size_bytes as u64 > supported_size) {
            return Err(MemShareError::InvalidValue);
        }
        if (size_bytes as u64) % BUFFERS_BASE_SIZE != 0 {
            return Err(MemShareError::InvalidValue);
        }
        if buffers.len() == 0 {
            return Err(MemShareError::AllocationError);
        }
        let buffer = buffers.pop().unwrap();
        Ok((buffer.0, buffer.0 + (size_bytes as u64)))
    }
}

/// Law: an area taken for a buffer and returned with its own size leaves the manager as
/// it was before the area was taken.
pub proof fn lemma_map_area_then_add_area(m: MemoryManagerView, size_bytes: i32, id: ProtectionId)
    requires
        m.map_area_outcome(size_bytes, id).0 is Ok,
        m.pool(id).last().1 <= max_buffer_size(id)->0,
    ensures
        ({
            let (r, taken) = m.map_area_outcome(size_bytes, id);
            taken.add_area_outcome(id, r->Ok_0.0, m.pool(id).last().1) == (
                Ok::<(), MemShareError>(()),
                m,
            )
        }),
{
    let p = m.pool(id);
    assert(p.drop_last().push(p.last()) =~= p);
    match id {
        ProtectionId::HostBuffer => {
            assert(m.with_pool(id, p) == m);
        },
        ProtectionId::SecureDisplayFrameBuffer => {
            assert(m.with_pool(id, p) == m);
        },
        ProtectionId::SecureVideoDecoderInput => {},
    }
}

/// Operations on the VM that the memshare service needs; the VM layer implements them.
pub trait MemShareVm {
    /// The handle of the memory that a buffer is mapped from.
    type Fd;

    /// Add a memory mapping to the VM.
    fn add_memory_mapping(
        &self,
        fd: &Self::Fd,
        range_ipa_start: u64,
        range_ipa_end: u64,
    ) -> Result<i32, MemShareError>;

    /// Remove a memory mapping from the VM.
    fn remove_memory_mapping(&self, dma_buffer_id: i32) -> Result<(), MemShareError>;
}

/// What the service answers for the VM's reply to removing a mapping.
pub open spec fn removal_outcome(reply: Result<(), MemShareError>) -> Result<(), MemShareError> {
    match reply {
        Ok(()) => Ok(()),
        Err(_) => Err(MemShareError::BufferMappingProblem),
    }
}

/// The DMA buffer id that the service records for the VM's reply to adding a mapping:
/// the id the VM gave, or [`ERROR_MAPPING_MEMORY`] when the VM failed.
pub open spec fn mapping_outcome(reply: Result<i32, MemShareError>) -> i32 {
    match reply {
        Ok(id) => id,
        Err(_) => ERROR_MAPPING_MEMORY,
    }
}

/// What the service answers for the VM's reply to removing a mapping.
pub fn removal_result(reply: Result<(), MemShareError>) -> (r: Result<(), MemShareError>)
    ensures
        r == removal_outcome(reply),
{
    match reply {
        Ok(()) => Ok(()),
        Err(_) => Err(MemShareError::BufferMappingProblem),
    }
}

/// The DMA buffer id that the service records for the VM's reply to adding a mapping.
pub fn mapping_result(reply: Result<i32, MemShareError>) -> (r: i32)
    ensures
        r == mapping_outcome(reply),
{
    match reply {
        Ok(id) => id,
        Err(_) => ERROR_MAPPING_MEMORY,
    }
}

/// Remove the mapping of DMA buffer `dma_buffer_id` from the VM. `InvalidState` when there
/// is no VM; otherwise the VM is asked once, for that id, and its reply decides the
/// answer as [`removal_outcome`] says.
pub fn remove_memory_mapping<V: MemShareVm + ?Sized>(vm: Option<&V>, dma_buffer_id: i32) -> (r:
    Result<(), MemShareError>)
    ensures
        vm is None ==> r == Err::<(), MemShareError>(MemShareError::InvalidState),
        vm matches Some(v) ==> exists|reply: Result<(), MemShareError>|
            #[trigger] call_ensures(V::remove_memory_mapping, (v, dma_buffer_id), reply) && r
                == removal_outcome(reply),
{
    match vm {
        None => Err(MemShareError::InvalidState),
        Some(v) => {
            let remove = V::remove_memory_mapping;
            let reply = remove(v, dma_buffer_id);
            assert(call_ensures(V::remove_memory_mapping, (v, dma_buffer_id), reply));
            removal_result(reply)
        },
    }
}

/// Map the buffer `file` into the VM at `[range_ipa_start, range_ipa_end)` and answer the
/// DMA buffer id, negative when the VM could not map it. `file` is `None` when the
/// buffer's descriptor could not be duplicated, which is `InvalidValue`; without a VM
/// the answer is `InvalidState`. Otherwise the VM is asked once, with exactly these
/// arguments, and its reply decides the id as [`mapping_outcome`] says.
pub fn add_memory_mapping<V: MemShareVm + ?Sized>(
    vm: Option<&V>,
    file: Option<&V::Fd>,
    range_ipa_start: u64,
    range_ipa_end: u64,
) -> (r: Result<i32, MemShareError>)
    ensures
        file is None ==> r == Err::<i32, MemShareError>(MemShareError::InvalidValue),
        file is Some && vm is None ==> r == Err::<i32, MemShareError>(MemShareError::InvalidState),
        (file, vm) matches (Some(f), Some(v)) ==> exists|reply: Result<i32, MemShareError>|
            #[trigger] call_ensures(
                V::add_memory_mapping,
                (v, f, range_ipa_start, range_ipa_end),
                reply,
            ) && r == Ok::<i32, MemShareError>(mapping_outcome(reply)),
{
    let f = match file {
        None => {
            return Err(MemShareError::InvalidValue);
        },
        Some(f) => f,
    };
    match vm {
        None => Err(MemShareError::InvalidState),
        Some(v) => {
            let map_into_vm = V::add_memory_mapping;
            let reply = map_into_vm(v, f, range_ipa_start, range_ipa_end);
            assert(call_ensures(V::add_memory_mapping, (v, f, range_ipa_start, range_ipa_end), reply));
            Ok(mapping_result(reply))
        },
    }
}

/// The trusted application's side of a shared buffer, which the service asks to release
/// the buffer.
pub trait TaMemoryBufferContext {
    /// What a failed call reports.
    type Error;

    /// Ask the trusted application to release its context of the buffer.
    fn release_memory_buffer_context(&self) -> Result<i32, Self::Error>;
}

/// `r` is a `GenericError` whose message is `msg`.
pub open spec fn is_generic_error<T>(r: Result<T, MemShareError>, msg: Seq<char>) -> bool {
    r matches Err(MemShareError::GenericError(m)) && m@ == msg
}

/// The model of a memory manager that may not exist yet.
pub open spec fn manager_view(m: Option<MemoryManager>) -> Option<MemoryManagerView> {
    match m {
        Some(m) => Some(m@),
        None => None,
    }
}

/// What the service keeps about one shared buffer: the VM's DMA buffer id, the IPA range
/// it occupies, and the trusted application's context of it, each until it is released.
pub struct MemoryBufferContextData<C> {
    pub dma_buffer_id: Option<i32>,
    pub memory_range: Option<MemoryRange>,
    pub ta_memory_buffer_ctx: Option<C>,
}

impl<C> MemoryBufferContextData<C> {
    /// A buffer mapped as DMA buffer `dma_buffer_id` at `[range_ipa_start, range_ipa_start
    /// + range_size)`, not yet known to the trusted application.
    pub fn new(dma_buffer_id: i32, protection_id: ProtectionId, range_ipa_start: u64, range_size: u64) -> (r:
        Self)
        ensures
            r.dma_buffer_id == Some(dma_buffer_id),
            r.memory_range == Some(MemoryRange { protection_id, range_ipa_start, range_size }),
            r.ta_memory_buffer_ctx is None,
    {
        let memory_range = MemoryRange { protection_id, range_ipa_start, range_size };
        MemoryBufferContextData {
            dma_buffer_id: Some(dma_buffer_id),
            memory_range: Some(memory_range),
            ta_memory_buffer_ctx: None,
        }
    }

    /// The IPA at which the buffer starts; `InvalidState` once its range was released.
    pub fn get_ipa(&self) -> (r: Result<i64, MemShareError>)
        ensures
            match self.memory_range {
                None => r == Err::<i64, MemShareError>(MemShareError::InvalidState),
                Some(range) => r == Ok::<i64, MemShareError>(range.range_ipa_start as i64),
            },
    {
        match &self.memory_range {
            None => Err(MemShareError::InvalidState),
            Some(range) => Ok(range.range_ipa_start as i64),
        }
    }

    /// The last step of releasing a buffer: its range, if it still held one, goes back to
    /// the manager at the largest size of its kind.
    pub open spec fn range_returned(
        old_range: Option<MemoryRange>,
        r: Result<(), MemShareError>,
        m_old: Option<MemoryManagerView>,
        m_new: Option<MemoryManagerView>,
    ) -> bool {
        match old_range {
            None => r == Ok::<(), MemShareError>(()) && m_new == m_old,
            Some(range) => match max_buffer_size(range.protection_id) {
                None => r == Err::<(), MemShareError>(MemShareError::InvalidValue) && m_new == m_old,
                Some(max) => match m_old {
                    None => r == Err::<(), MemShareError>(MemShareError::InvalidState) && m_new is None,
                    Some(m) => {
                        let (added, m2) = m.add_area_outcome(
                            range.protection_id,
                            range.range_ipa_start,
                            max,
                        );
                        &&& m_new == Some(m2)
                        &&& added is Ok ==> r == Ok::<(), MemShareError>(())
                        &&& added is Err ==> is_generic_error(
                            r,
                            "Coudln't return memory range to manager"@,
                        )
                    },
                },
            },
        }
    }

    /// Releasing a buffer once the trusted application's context is gone: a held DMA
    /// buffer id is given to the VM to remove (`InvalidState` without a VM); when the VM
    /// refuses, the release ends with [`removal_outcome`]'s error and the range is kept;
    /// otherwise the range goes back to the manager.
    pub open spec fn released_after_context<V: MemShareVm + ?Sized>(
        old: Self,
        new: Self,
        vm: Option<&V>,
        r: Result<(), MemShareError>,
        m_old: Option<MemoryManagerView>,
        m_new: Option<MemoryManagerView>,
    ) -> bool {
        &&& new.dma_buffer_id is None
        &&& match old.dma_buffer_id {
            None => new.memory_range is None && Self::range_returned(
                old.memory_range,
                r,
                m_old,
                m_new,
            ),
            Some(d) => match vm {
                None => {
                    &&& r == Err::<(), MemShareError>(MemShareError::InvalidState)
                    &&& new.memory_range == old.memory_range
                    &&& m_new == m_old
                },
                Some(v) => exists|reply: Result<(), MemShareError>|
                    #[trigger] call_ensures(V::remove_memory_mapping, (v, d), reply) && match removal_outcome(reply) {
                        Err(e) => {
                            &&& r == Err::<(), MemShareError>(e)
                            &&& new.memory_range == old.memory_range
                            &&& m_new == m_old
                        },
                        Ok(()) => new.memory_range is None && Self::range_returned(
                            old.memory_range,
                            r,
                            m_old,
                            m_new,
                        ),
                    },
            },
        }
    }
}

impl<C: TaMemoryBufferContext> MemoryBufferContextData<C> {
    /// The whole release of a buffer: a held trusted-application context is asked once
    /// to release the buffer; when it refuses, the release ends with a `GenericError` and
    /// the DMA buffer id and range are kept; otherwise [`Self::released_after_context`]
    /// follows.
    pub open spec fn released<V: MemShareVm + ?Sized>(
        old: Self,
        new: Self,
        vm: Option<&V>,
        r: Result<(), MemShareError>,
        m_old: Option<MemoryManagerView>,
        m_new: Option<MemoryManagerView>,
    ) -> bool {
        &&& new.ta_memory_buffer_ctx is None
        &&& match old.ta_memory_buffer_ctx {
            None => Self::released_after_context(old, new, vm, r, m_old, m_new),
            Some(t) => exists|reply: Result<i32, C::Error>|
                #[trigger] call_ensures(C::release_memory_buffer_context, (&t,), reply) && match reply {
                    Err(_) => {
                        &&& is_generic_error(r, "TA releaseMemoryBufferContext call failed"@)
                        &&& new.dma_buffer_id == old.dma_buffer_id
                        &&& new.memory_range == old.memory_range
                        &&& m_new == m_old
                    },
                    Ok(_) => Self::released_after_context(old, new, vm, r, m_old, m_new),
                },
        }
    }

    /// Release everything the buffer holds, in order: the trusted application's context,
    /// the VM mapping, and the IPA range, which goes back to `manager`. Each item is
    /// dropped from `self` as its step begins, and the first failing step ends the release
    /// with its error.
    pub fn free_resources<V: MemShareVm + ?Sized>(
        &mut self,
        vm: Option<&V>,
        manager: &mut Option<MemoryManager>,
    ) -> (r: Result<(), MemShareError>)
        ensures
            Self::released(
                *old(self),
                *final(self),
                vm,
                r,
                manager_view(*old(manager)),
                manager_view(*final(manager)),
            ),
    {
        if let Some(ctx) = self.ta_memory_buffer_ctx.take() {
            let release = C::release_memory_buffer_context;
            let reply = release(&ctx);
            assert(call_ensures(C::release_memory_buffer_context, (&ctx,), reply));
            match reply {
                Ok(_) => {},
                Err(_) => {
                    return Err(
                        MemShareError::GenericError(
                            "TA releaseMemoryBufferContext call failed".to_owned(),
                        ),
                    );
                },
            }
        }
        if let Some(dma_buffer_id) = self.dma_buffer_id.take() {
            match remove_memory_mapping(vm, dma_buffer_id) {
                Ok(()) => {},
                Err(e) => {
                    return Err(e);
                },
            }
        }
        if let Some(memory_range) = self.memory_range.take() {
            let range_max_size = match MemoryManager::get_buffer_max_size(
                memory_range.protection_id,
            ) {
                Ok(size) => size,
                Err(e) => {
                    return Err(e);
                },
            };
            match manager {
                None => {
                    return Err(MemShareError::InvalidState);
                },
                Some(m) => {
                    match m.add_area(
                        memory_range.protection_id,
                        memory_range.range_ipa_start,
                        range_max_size,
                    ) {
                        Ok(()) => {},
                        Err(_) => {
                            return Err(
                                MemShareError::GenericError(
                                    "Coudln't return memory range to manager".to_owned(),
                                ),
                            );
                        },
                    }
                },
            }
        }
        Ok(())
    }
}

/// What recording a buffer mapped at `[start, end)` answers for the DMA buffer id the VM
/// gave, and the manager after it: a buffer of kind `id` when the id is valid, else the
/// area goes back to the manager and the answer is `BufferMappingProblem` (or the
/// manager's refusal).
pub open spec fn record_outcome<C>(
    m: MemoryManagerView,
    id: ProtectionId,
    start: u64,
    end: u64,
    dma_buffer_id: i32,
) -> (Result<MemoryBufferContextData<C>, MemShareError>, MemoryManagerView) {
    if dma_buffer_id >= 0 {
        (
            Ok(
                MemoryBufferContextData {
                    dma_buffer_id: Some(dma_buffer_id),
                    memory_range: Some(
                        MemoryRange {
                            protection_id: id,
                            range_ipa_start: start,
                            range_size: (end - start) as u64,
                        },
                    ),
                    ta_memory_buffer_ctx: None,
                },
            ),
            m,
        )
    } else {
        let (added, m2) = m.add_area_outcome(id, start, (end - start) as u64);
        match added {
            Ok(()) => (Err(MemShareError::BufferMappingProblem), m2),
            Err(e) => (Err(e), m2),
        }
    }
}

/// Record a buffer that the VM was asked to map at `[range_ipa_start, range_ipa_end)`,
/// for the DMA buffer id it answered: as a buffer of kind `protection_id` when the id is
/// valid; when it is negative, the area goes back to `memory_manager` and the answer is
/// `BufferMappingProblem`.
pub fn record_mapping<C>(
    memory_manager: &mut MemoryManager,
    protection_id: ProtectionId,
    range_ipa_start: u64,
    range_ipa_end: u64,
    dma_buffer_id: i32,
) -> (r: Result<MemoryBufferContextData<C>, MemShareError>)
    requires
        range_ipa_start <= range_ipa_end,
    ensures
        (r, final(memory_manager)@) == record_outcome::<C>(
            old(memory_manager)@,
            protection_id,
            range_ipa_start,
            range_ipa_end,
            dma_buffer_id,
        ),
{
    if dma_buffer_id < 0 {
        match memory_manager.add_area(
            protection_id,
            range_ipa_start,
            range_ipa_end - range_ipa_start,
        ) {
            Ok(()) => {},
            Err(e) => {
                return Err(e);
            },
        }
        return Err(MemShareError::BufferMappingProblem);
    }
    Ok(
        MemoryBufferContextData::new(
            dma_buffer_id,
            protection_id,
            range_ipa_start,
            range_ipa_end - range_ipa_start,
        ),
    )
}

/// Take an area for a buffer of `size_bytes` bytes of kind `protection_id` from
/// `memory_manager` and map the buffer `file` there in the VM. A negative size is
/// `InvalidValue` and an unknown kind `ConversionError`, with nothing taken; the
/// manager's own refusals pass through; once an area is taken, a descriptor that could
/// not be duplicated is `InvalidValue` and a missing VM `InvalidState`; otherwise the VM
/// is asked once to map exactly that area and [`record_mapping`] decides on its reply.
pub fn map_memory_buffer<V: MemShareVm + ?Sized, C>(
    vm: Option<&V>,
    memory_manager: &mut MemoryManager,
    file: Option<&V::Fd>,
    size_bytes: i32,
    protection_id: i32,
) -> (r: Result<MemoryBufferContextData<C>, MemShareError>)
    requires
        match protection_id_of(protection_id) {
            Some(id) => old(memory_manager)@.map_area_in_range(size_bytes, id),
            None => true,
        },
    ensures
        size_bytes < 0 ==> r is Err && r->Err_0 == MemShareError::InvalidValue && final(memory_manager)@ == old(memory_manager)@,
        size_bytes >= 0 && protection_id_of(protection_id) is None ==> r is Err && r->Err_0
            == MemShareError::ConversionError && final(memory_manager)@ == old(memory_manager)@,
        size_bytes >= 0 && protection_id_of(protection_id) is Some ==> {
            let id = protection_id_of(protection_id)->0;
            let (area, taken) = old(memory_manager)@.map_area_outcome(size_bytes, id);
            match area {
                Err(e) => r is Err && r->Err_0 == e && final(memory_manager)@ == taken,
                Ok((start, end)) => {
                    &&& file is None ==> r is Err && r->Err_0 == MemShareError::InvalidValue
                        && final(memory_manager)@ == taken
                    &&& file is Some && vm is None ==> r is Err && r->Err_0
                        == MemShareError::InvalidState && final(memory_manager)@ == taken
                    &&& (file, vm) matches (Some(f), Some(v)) ==> exists|
                        reply: Result<i32, MemShareError>,
                    |
                        #[trigger] call_ensures(V::add_memory_mapping, (v, f, start, end), reply)
                            && (r, final(memory_manager)@) == record_outcome::<C>(
                            taken,
                            id,
                            start,
                            end,
                            mapping_outcome(reply),
                        )
                },
            }
        },
{
    if size_bytes < 0 {
        return Err(MemShareError::InvalidValue);
    }
    let protection_id = match ProtectionId::try_from(protection_id) {
        Ok(id) => id,
        Err(e) => {
            return Err(e);
        },
    };
    let (range_ipa_start, range_ipa_end) = match memory_manager.get_map_area(
        size_bytes,
        protection_id,
    ) {
        Ok(area) => area,
        Err(e) => {
            return Err(e);
        },
    };
    let dma_buffer_id = match add_memory_mapping(vm, file, range_ipa_start, range_ipa_end) {
        Ok(id) => id,
        Err(e) => {
            return Err(e);
        },
    };
    record_mapping(memory_manager, protection_id, range_ipa_start, range_ipa_end, dma_buffer_id)
}

/// Law: when the trusted application and the VM accept every request, releasing a buffer
/// that still holds its range removes its mapping, drops everything it holds, and returns
/// its area to the manager at the largest size of its kind.
pub proof fn lemma_release_when_all_accept<C: TaMemoryBufferContext, V: MemShareVm + ?Sized>(
    old: MemoryBufferContextData<C>,
    new: MemoryBufferContextData<C>,
    vm: &V,
    r: Result<(), MemShareError>,
    m: MemoryManagerView,
    m_new: Option<MemoryManagerView>,
)
    requires
        MemoryBufferContextData::<C>::released(old, new, Some(vm), r, Some(m), m_new),
        old.ta_memory_buffer_ctx matches Some(t) ==> forall|reply: Result<i32, C::Error>|
            #[trigger] call_ensures(C::release_memory_buffer_context, (&t,), reply) ==> reply is Ok,
        old.dma_buffer_id matches Some(d) ==> forall|reply: Result<(), MemShareError>|
            #[trigger] call_ensures(V::remove_memory_mapping, (vm, d), reply) ==> reply is Ok,
        old.memory_range is Some,
        old.memory_range->0.protection_id != ProtectionId::SecureVideoDecoderInput,
    ensures
        r == Ok::<(), MemShareError>(()),
        new.ta_memory_buffer_ctx is None,
        new.dma_buffer_id is None,
        new.memory_range is None,
        old.memory_range->0.protection_id == ProtectionId::HostBuffer ==> m_new == Some(
            MemoryManagerView {
                host: m.host.push(
                    (old.memory_range->0.range_ipa_start, HOST_BUFFER_MAX_SUPPORTED_SIZE),
                ),
                secure: m.secure,
            },
        ),
        old.memory_range->0.protection_id == ProtectionId::SecureDisplayFrameBuffer ==> m_new
            == Some(
            MemoryManagerView {
                host: m.host,
                secure: m.secure.push(
                    (old.memory_range->0.range_ipa_start, SECURE_BUFFER_MAX_SUPPORTED_SIZE),
                ),
            },
        ),
{
}

/// Law: a release that succeeded leaves nothing to release: releasing again answers `Ok`
/// and leaves the buffer and the manager as they are.
pub proof fn lemma_release_after_release<C: TaMemoryBufferContext, V: MemShareVm + ?Sized>(
    old: MemoryBufferContextData<C>,
    mid: MemoryBufferContextData<C>,
    new: MemoryBufferContextData<C>,
    vm: Option<&V>,
    r1: Result<(), MemShareError>,
    r2: Result<(), MemShareError>,
    m0: Option<MemoryManagerView>,
    m1: Option<MemoryManagerView>,
    m2: Option<MemoryManagerView>,
)
    requires
        MemoryBufferContextData::<C>::released(old, mid, vm, r1, m0, m1),
        r1 is Ok,
        MemoryBufferContextData::<C>::released(mid, new, vm, r2, m1, m2),
    ensures
        mid.ta_memory_buffer_ctx is None,
        mid.dma_buffer_id is None,
        mid.memory_range is None,
        r2 == Ok::<(), MemShareError>(()),
        new.ta_memory_buffer_ctx is None,
        new.dma_buffer_id is None,
        new.memory_range is None,
        m2 == m1,
{
}

/// Law: exactly the three protection identifiers decode, each to its own kind; every
/// other wire value is refused.
pub proof fn lemma_protection_id_decoding(value: i32)
    ensures
        protection_id_of(value) is Some <==> (value == HOST_BUFFER || value
            == SECURE_DISPLAY_FRAME_BUFFER || value == SECURE_VIDEO_DECODER_INPUT),
        value == HOST_BUFFER ==> protection_id_of(value) == Some(ProtectionId::HostBuffer),
        value == SECURE_DISPLAY_FRAME_BUFFER ==> protection_id_of(value) == Some(
            ProtectionId::SecureDisplayFrameBuffer,
        ),
        value == SECURE_VIDEO_DECODER_INPUT ==> protection_id_of(value) == Some(
            ProtectionId::SecureVideoDecoderInput,
        ),
{
}

/// Law: returning an area. A kind that cannot be shared, or an area larger than the
/// largest buffer of its kind, is refused with `InvalidValue` and changes nothing;
/// otherwise the area becomes the next one handed out for its kind and the other kind's
/// areas stay as they are.
pub proof fn lemma_add_area(m: MemoryManagerView, id: ProtectionId, base: u64, size: u64)
    ensures
        id == ProtectionId::SecureVideoDecoderInput ==> m.add_area_outcome(id, base, size) == (
            Err::<(), MemShareError>(MemShareError::InvalidValue),
            m,
        ),
        id == ProtectionId::HostBuffer && size > HOST_BUFFER_MAX_SUPPORTED_SIZE ==> m.add_area_outcome(
            id,
            base,
            size,
        ) == (Err::<(), MemShareError>(MemShareError::InvalidValue), m),
        id == ProtectionId::SecureDisplayFrameBuffer && size > SECURE_BUFFER_MAX_SUPPORTED_SIZE
            ==> m.add_area_outcome(id, base, size) == (
            Err::<(), MemShareError>(MemShareError::InvalidValue),
            m,
        ),
        id == ProtectionId::HostBuffer && size <= HOST_BUFFER_MAX_SUPPORTED_SIZE ==> m.add_area_outcome(
            id,
            base,
            size,
        ) == (
            Ok::<(), MemShareError>(()),
            MemoryManagerView { host: m.host.push((base, size)), secure: m.secure },
        ),
        id == ProtectionId::SecureDisplayFrameBuffer && size <= SECURE_BUFFER_MAX_SUPPORTED_SIZE
            ==> m.add_area_outcome(id, base, size) == (
            Ok::<(), MemShareError>(()),
            MemoryManagerView { host: m.host, secure: m.secure.push((base, size)) },
        ),
{
}

/// Law: taking an area. A kind that cannot be shared, a negative size, a size above the
/// largest buffer of the kind or one that is not a multiple of the granule is refused
/// with `InvalidValue`; an exhausted kind with `AllocationError`; a refusal changes
/// nothing. Otherwise the last free area of the kind is handed out, as the IPA range
/// `[base, base + size_bytes)`, and only it leaves the manager.
pub proof fn lemma_map_area(m: MemoryManagerView, size_bytes: i32, id: ProtectionId)
    ensures
        m.map_area_outcome(size_bytes, id).0 is Err ==> m.map_area_outcome(size_bytes, id).1 == m,
        m.map_area_in_range(size_bytes, id) && m.map_area_outcome(size_bytes, id).0 is Ok ==> m.map_area_outcome(size_bytes, id).0->Ok_0.1
            == m.map_area_outcome(size_bytes, id).0->Ok_0.0 + size_bytes,
        id == ProtectionId::SecureVideoDecoderInput || size_bytes < 0 || (size_bytes as int)
            % 4096 != 0 || (id == ProtectionId::HostBuffer && size_bytes
            > HOST_BUFFER_MAX_SUPPORTED_SIZE) || (id == ProtectionId::SecureDisplayFrameBuffer
            && size_bytes > SECURE_BUFFER_MAX_SUPPORTED_SIZE) ==> m.map_area_outcome(
            size_bytes,
            id,
        ).0 == Err::<(u64, u64), MemShareError>(MemShareError::InvalidValue),
        id == ProtectionId::HostBuffer && 0 <= size_bytes <= HOST_BUFFER_MAX_SUPPORTED_SIZE && (
        size_bytes as int) % 4096 == 0 ==> {
            &&& m.host.len() == 0 ==> m.map_area_outcome(size_bytes, id).0 == Err::<
                (u64, u64),
                MemShareError,
            >(MemShareError::AllocationError)
            &&& m.host.len() > 0 ==> m.map_area_outcome(size_bytes, id) == (
                Ok::<(u64, u64), MemShareError>(
                    (m.host.last().0, (m.host.last().0 + size_bytes) as u64),
                ),
                MemoryManagerView { host: m.host.drop_last(), secure: m.secure },
            )
        },
        id == ProtectionId::SecureDisplayFrameBuffer && 0 <= size_bytes
            <= SECURE_BUFFER_MAX_SUPPORTED_SIZE && (size_bytes as int) % 4096 == 0 ==> {
            &&& m.secure.len() == 0 ==> m.map_area_outcome(size_bytes, id).0 == Err::<
                (u64, u64),
                MemShareError,
            >(MemShareError::AllocationError)
            &&& m.secure.len() > 0 ==> m.map_area_outcome(size_bytes, id) == (
                Ok::<(u64, u64), MemShareError>(
                    (m.secure.last().0, (m.secure.last().0 + size_bytes) as u64),
                ),
                MemoryManagerView { host: m.host, secure: m.secure.drop_last() },
            )
        },
{
}

/// Law: recording a mapping. A valid DMA buffer id gives a buffer that holds exactly that
/// id, the requested kind and the mapped range, and leaves the manager alone; a negative
/// id gives `BufferMappingProblem` and puts the range back, at its own size, as the next
/// area of the requested kind.
pub proof fn lemma_record_mapping<C>(
    m: MemoryManagerView,
    id: ProtectionId,
    start: u64,
    end: u64,
    dma_buffer_id: i32,
)
    requires
        start <= end,
    ensures
        ({
            let (r, m2) = record_outcome::<C>(m, id, start, end, dma_buffer_id);
            &&& dma_buffer_id >= 0 ==> {
                &&& r is Ok
                &&& r->Ok_0.dma_buffer_id == Some(dma_buffer_id)
                &&& r->Ok_0.memory_range is Some
                &&& r->Ok_0.memory_range->0.protection_id == id
                &&& r->Ok_0.memory_range->0.range_ipa_start == start
                &&& r->Ok_0.memory_range->0.range_size == end - start
                &&& r->Ok_0.ta_memory_buffer_ctx is None
                &&& m2 == m
            }
            &&& dma_buffer_id < 0 && id == ProtectionId::HostBuffer && end - start
                <= HOST_BUFFER_MAX_SUPPORTED_SIZE ==> {
                &&& r == Err::<MemoryBufferContextData<C>, MemShareError>(
                    MemShareError::BufferMappingProblem,
                )
                &&& m2 == MemoryManagerView {
                    host: m.host.push((start, (end - start) as u64)),
                    secure: m.secure,
                }
            }
            &&& dma_buffer_id < 0 && id == ProtectionId::SecureDisplayFrameBuffer && end - start
                <= SECURE_BUFFER_MAX_SUPPORTED_SIZE ==> {
                &&& r == Err::<MemoryBufferContextData<C>, MemShareError>(
                    MemShareError::BufferMappingProblem,
                )
                &&& m2 == MemoryManagerView {
                    host: m.host,
                    secure: m.secure.push((start, (end - start) as u64)),
                }
            }
        }),
{
}

/// Law: sharing a buffer. When the manager hands out an area for the request and the VM
/// maps it, the buffer recorded is of the kind the wire value names, starts at the last
/// free area of that kind and has the requested size.
pub proof fn lemma_shared_buffer_matches_request<C>(
    m: MemoryManagerView,
    size_bytes: i32,
    protection_id: i32,
    dma_buffer_id: i32,
)
    requires
        size_bytes >= 0,
        protection_id_of(protection_id) is Some,
        m.map_area_in_range(size_bytes, protection_id_of(protection_id)->0),
        m.map_area_outcome(size_bytes, protection_id_of(protection_id)->0).0 is Ok,
        dma_buffer_id >= 0,
    ensures
        ({
            let id = protection_id_of(protection_id)->0;
            let (area, taken) = m.map_area_outcome(size_bytes, id);
            let (r, _) = record_outcome::<C>(taken, id, area->Ok_0.0, area->Ok_0.1, dma_buffer_id);
            &&& r is Ok
            &&& r->Ok_0.memory_range is Some
            &&& protection_id == HOST_BUFFER ==> r->Ok_0.memory_range->0.protection_id
                == ProtectionId::HostBuffer && r->Ok_0.memory_range->0.range_ipa_start
                == m.host.last().0
            &&& protection_id == SECURE_DISPLAY_FRAME_BUFFER
                ==> r->Ok_0.memory_range->0.protection_id
                == ProtectionId::SecureDisplayFrameBuffer
                && r->Ok_0.memory_range->0.range_ipa_start == m.secure.last().0
            &&& r->Ok_0.memory_range->0.range_size == size_bytes
            &&& r->Ok_0.dma_buffer_id == Some(dma_buffer_id)
        }),
{
    let id = protection_id_of(protection_id)->0;
    lemma_protection_id_decoding(protection_id);
    lemma_map_area(m, size_bytes, id);
    let (area, taken) = m.map_area_outcome(size_bytes, id);
    lemma_record_mapping::<C>(taken, id, area->Ok_0.0, area->Ok_0.1, dma_buffer_id);
}

/// Law: when the VM refuses to remove a buffer's mapping, the release fails with
/// `BufferMappingProblem`, the buffer keeps its range and the manager is left exactly as
/// it was.
pub proof fn lemma_release_when_vm_refuses<C: TaMemoryBufferContext, V: MemShareVm + ?Sized>(
    old: MemoryBufferContextData<C>,
    new: MemoryBufferContextData<C>,
    vm: &V,
    r: Result<(), MemShareError>,
    m_old: Option<MemoryManagerView>,
    m_new: Option<MemoryManagerView>,
)
    requires
        MemoryBufferContextData::<C>::released(old, new, Some(vm), r, m_old, m_new),
        old.ta_memory_buffer_ctx matches Some(t) ==> forall|reply: Result<i32, C::Error>|
            #[trigger] call_ensures(C::release_memory_buffer_context, (&t,), reply) ==> reply is Ok,
        old.dma_buffer_id is Some,
        forall|reply: Result<(), MemShareError>|
            #[trigger] call_ensures(V::remove_memory_mapping, (vm, old.dma_buffer_id->0), reply)
                ==> reply is Err,
    ensures
        r == Err::<(), MemShareError>(MemShareError::BufferMappingProblem),
        new.ta_memory_buffer_ctx is None,
        new.dma_buffer_id is None,
        new.memory_range == old.memory_range,
        m_new == m_old,
{
}

/// Law: when the trusted application refuses to release the buffer, the release fails
/// with a `GenericError`, the buffer keeps its DMA buffer id and its range, and the
/// manager is left exactly as it was.
pub proof fn lemma_release_when_ta_refuses<C: TaMemoryBufferContext, V: MemShareVm + ?Sized>(
    old: MemoryBufferContextData<C>,
    new: MemoryBufferContextData<C>,
    vm: Option<&V>,
    r: Result<(), MemShareError>,
    m_old: Option<MemoryManagerView>,
    m_new: Option<MemoryManagerView>,
)
    requires
        MemoryBufferContextData::<C>::released(old, new, vm, r, m_old, m_new),
        old.ta_memory_buffer_ctx is Some,
        forall|reply: Result<i32, C::Error>|
            #[trigger] call_ensures(
                C::release_memory_buffer_context,
                (&old.ta_memory_buffer_ctx->0,),
                reply,
            ) ==> reply is Err,
    ensures
        r is Err,
        r->Err_0 matches MemShareError::GenericError(msg) && msg@
            == "TA releaseMemoryBufferContext call failed"@,
        new.ta_memory_buffer_ctx is None,
        new.dma_buffer_id == old.dma_buffer_id,
        new.memory_range == old.memory_range,
        m_new == m_old,
{
}

/// Law: without a VM, a buffer that still holds a mapping cannot be released: the answer
/// is `InvalidState`, the buffer keeps its range and the manager is left as it was.
pub proof fn lemma_release_without_vm<C: TaMemoryBufferContext, V: MemShareVm + ?Sized>(
    old: MemoryBufferContextData<C>,
    new: MemoryBufferContextData<C>,
    r: Result<(), MemShareError>,
    m_old: Option<MemoryManagerView>,
    m_new: Option<MemoryManagerView>,
)
    requires
        MemoryBufferContextData::<C>::released(old, new, None::<&V>, r, m_old, m_new),
        old.ta_memory_buffer_ctx is None,
        old.dma_buffer_id is Some,
    ensures
        r == Err::<(), MemShareError>(MemShareError::InvalidState),
        new.dma_buffer_id is None,
        new.memory_range == old.memory_range,
        m_new == m_old,
{
}

/// Law: the VM's replies. A removal is reported as done exactly when the VM removed the
/// mapping, and as `BufferMappingProblem` otherwise; the DMA buffer id recorded for a
/// mapping is valid (non-negative) only when the VM mapped the buffer and gave that id.
pub proof fn lemma_vm_replies(removal: Result<(), MemShareError>, mapping: Result<i32, MemShareError>)
    ensures
        removal_outcome(removal) is Ok <==> removal is Ok,
        removal is Err ==> removal_outcome(removal) == Err::<(), MemShareError>(
            MemShareError::BufferMappingProblem,
        ),
        mapping is Err ==> mapping_outcome(mapping) < 0,
        mapping matches Ok(id) ==> mapping_outcome(mapping) == id,
        mapping_outcome(mapping) >= 0 ==> mapping == Ok::<i32, MemShareError>(
            mapping_outcome(mapping),
        ),
{
}

/// Law: a mapping the VM refused never yields a shared buffer: the answer is an error and
/// the area goes back to the manager as the next one of its kind.
pub proof fn lemma_refused_mapping_is_not_recorded<C>(
    m: MemoryManagerView,
    id: ProtectionId,
    start: u64,
    end: u64,
    reply: Result<i32, MemShareError>,
)
    requires
        start <= end,
        reply is Err,
    ensures
        record_outcome::<C>(m, id, start, end, mapping_outcome(reply)).0 is Err,
        id == ProtectionId::HostBuffer && end - start <= HOST_BUFFER_MAX_SUPPORTED_SIZE
            ==> record_outcome::<C>(m, id, start, end, mapping_outcome(reply)).1
            == (MemoryManagerView { host: m.host.push((start, (end - start) as u64)), secure: m.secure }),
        id == ProtectionId::SecureDisplayFrameBuffer && end - start
            <= SECURE_BUFFER_MAX_SUPPORTED_SIZE ==> record_outcome::<C>(
            m,
            id,
            start,
            end,
            mapping_outcome(reply),
        ).1 == (MemoryManagerView { host: m.host, secure: m.secure.push((start, (end - start) as u64)) }),
{
    lemma_vm_replies(Ok(()), reply);
    lemma_record_mapping::<C>(m, id, start, end, mapping_outcome(reply));
}

} // verus!

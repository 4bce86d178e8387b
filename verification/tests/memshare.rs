use std::cell::Cell;
use trusty_launcher::memshare::{
    add_memory_mapping, map_memory_buffer, mapping_result, record_mapping, remove_memory_mapping, removal_result,
    MemShareError, MemShareVm, MemoryBufferContextData, MemoryManager, MemoryRange, ProtectionId,
    TaMemoryBufferContext, ERROR_MAPPING_MEMORY, HOST_BUFFER, HOST_BUFFER_1_BASE_ADDRESS,
    HOST_BUFFER_2_BASE_ADDRESS, HOST_BUFFER_MAX_SUPPORTED_SIZE, SECURE_BUFFER_BASE_ADDRESS,
    SECURE_DISPLAY_FRAME_BUFFER, SECURE_VIDEO_DECODER_INPUT,
};

const MIB64: u64 = 64 * 1024 * 1024;

struct FakeVm {
    map_reply: Result<i32, ()>,
    remove_ok: bool,
    removed: Cell<Option<i32>>,
    mapped: Cell<Option<(u64, u64)>>,
}

impl FakeVm {
    fn new(map_reply: Result<i32, ()>, remove_ok: bool) -> Self {
        FakeVm { map_reply, remove_ok, removed: Cell::new(None), mapped: Cell::new(None) }
    }
}

impl MemShareVm for FakeVm {
    type Fd = u32;

    fn add_memory_mapping(
        &self,
        _fd: &u32,
        range_ipa_start: u64,
        range_ipa_end: u64,
    ) -> Result<i32, MemShareError> {
        self.mapped.set(Some((range_ipa_start, range_ipa_end)));
        self.map_reply.map_err(|_| MemShareError::InvalidState)
    }

    fn remove_memory_mapping(&self, dma_buffer_id: i32) -> Result<(), MemShareError> {
        self.removed.set(Some(dma_buffer_id));
        if self.remove_ok {
            Ok(())
        } else {
            Err(MemShareError::InvalidValue)
        }
    }
}

struct FakeTa {
    ok: bool,
}

impl TaMemoryBufferContext for FakeTa {
    type Error = ();
    fn release_memory_buffer_context(&self) -> Result<i32, ()> {
        if self.ok {
            Ok(0)
        } else {
            Err(())
        }
    }
}

#[test]
fn protection_ids_convert() {
    assert_eq!(ProtectionId::try_from(HOST_BUFFER).unwrap(), ProtectionId::HostBuffer);
    assert_eq!(
        ProtectionId::try_from(SECURE_DISPLAY_FRAME_BUFFER).unwrap(),
        ProtectionId::SecureDisplayFrameBuffer
    );
    assert_eq!(
        ProtectionId::try_from(SECURE_VIDEO_DECODER_INPUT).unwrap(),
        ProtectionId::SecureVideoDecoderInput
    );
    assert!(matches!(ProtectionId::try_from(77), Err(MemShareError::ConversionError)));
}

#[test]
fn max_sizes() {
    assert_eq!(MemoryManager::get_buffer_max_size(ProtectionId::HostBuffer).unwrap(), MIB64);
    assert_eq!(
        MemoryManager::get_buffer_max_size(ProtectionId::SecureDisplayFrameBuffer).unwrap(),
        MIB64
    );
    assert!(matches!(
        MemoryManager::get_buffer_max_size(ProtectionId::SecureVideoDecoderInput),
        Err(MemShareError::InvalidValue)
    ));
}

#[test]
fn host_areas_are_handed_out_lowest_first_then_exhausted() {
    let mut m = MemoryManager::new();
    assert_eq!(HOST_BUFFER_1_BASE_ADDRESS, 0x8400_0000);
    assert_eq!(HOST_BUFFER_2_BASE_ADDRESS, 0x8800_0000);
    assert_eq!(
        m.get_map_area(8192, ProtectionId::HostBuffer).unwrap(),
        (0x8400_0000, 0x8400_2000)
    );
    assert_eq!(m.get_map_area(4096, ProtectionId::HostBuffer).unwrap(), (0x8800_0000, 0x8800_1000));
    assert!(matches!(
        m.get_map_area(4096, ProtectionId::HostBuffer),
        Err(MemShareError::AllocationError)
    ));
    // the secure pool is independent
    assert_eq!(
        m.get_map_area(0, ProtectionId::SecureDisplayFrameBuffer).unwrap(),
        (SECURE_BUFFER_BASE_ADDRESS, SECURE_BUFFER_BASE_ADDRESS)
    );
}

#[test]
fn map_area_checks_size() {
    let mut m = MemoryManager::new();
    assert!(matches!(m.get_map_area(-1, ProtectionId::HostBuffer), Err(MemShareError::InvalidValue)));
    assert!(matches!(
        m.get_map_area((MIB64 + 4096) as i32, ProtectionId::HostBuffer),
        Err(MemShareError::InvalidValue)
    ));
    assert!(matches!(m.get_map_area(4097, ProtectionId::HostBuffer), Err(MemShareError::InvalidValue)));
    assert!(matches!(
        m.get_map_area(4096, ProtectionId::SecureVideoDecoderInput),
        Err(MemShareError::InvalidValue)
    ));
    // nothing was taken by the refused requests
    assert_eq!(m.get_map_area(MIB64 as i32, ProtectionId::HostBuffer).unwrap().0, 0x8400_0000);
}

#[test]
fn add_area_checks_kind_and_size_and_returns_last_added_first() {
    let mut m = MemoryManager::new();
    assert!(matches!(
        m.add_area(ProtectionId::HostBuffer, 0x1000, MIB64 + 1),
        Err(MemShareError::InvalidValue)
    ));
    assert!(matches!(
        m.add_area(ProtectionId::SecureVideoDecoderInput, 0x1000, 4096),
        Err(MemShareError::InvalidValue)
    ));
    m.add_area(ProtectionId::HostBuffer, 0x1000_0000, 4096).unwrap();
    assert_eq!(m.get_map_area(4096, ProtectionId::HostBuffer).unwrap(), (0x1000_0000, 0x1000_1000));
    assert_eq!(m.get_map_area(4096, ProtectionId::HostBuffer).unwrap().0, 0x8400_0000);
}

#[test]
fn taking_and_returning_an_area_restores_the_manager() {
    let mut m = MemoryManager::new();
    let (start, _end) = m.get_map_area(4096, ProtectionId::HostBuffer).unwrap();
    m.add_area(ProtectionId::HostBuffer, start, HOST_BUFFER_MAX_SUPPORTED_SIZE).unwrap();
    assert_eq!(m.get_map_area(4096, ProtectionId::HostBuffer).unwrap().0, 0x8400_0000);
    assert_eq!(m.get_map_area(4096, ProtectionId::HostBuffer).unwrap().0, 0x8800_0000);
    assert!(m.get_map_area(4096, ProtectionId::HostBuffer).is_err());
}

#[test]
fn vm_replies_are_translated() {
    assert!(removal_result(Ok(())).is_ok());
    assert!(matches!(
        removal_result(Err(MemShareError::InvalidValue)),
        Err(MemShareError::BufferMappingProblem)
    ));
    assert_eq!(mapping_result(Ok(7)), 7);
    assert_eq!(mapping_result(Err(MemShareError::InvalidState)), ERROR_MAPPING_MEMORY);
}

#[test]
fn mapping_calls_need_a_vm() {
    let none: Option<&FakeVm> = None;
    assert!(matches!(remove_memory_mapping(none, 3), Err(MemShareError::InvalidState)));
    assert!(matches!(add_memory_mapping(none, Some(&0), 1, 2), Err(MemShareError::InvalidState)));
    let vm = FakeVm::new(Err(()), false);
    assert_eq!(add_memory_mapping(Some(&vm), Some(&0), 1, 2).unwrap(), ERROR_MAPPING_MEMORY);
    assert!(matches!(
        remove_memory_mapping(Some(&vm), 3),
        Err(MemShareError::BufferMappingProblem)
    ));
    assert_eq!(vm.removed.get(), Some(3));
}

#[test]
fn map_memory_buffer_success() {
    let vm = FakeVm::new(Ok(5), true);
    let mut m = MemoryManager::new();
    let data: MemoryBufferContextData<FakeTa> =
        map_memory_buffer(Some(&vm), &mut m, Some(&9), 8192, HOST_BUFFER).unwrap();
    assert_eq!(vm.mapped.get(), Some((0x8400_0000, 0x8400_2000)));
    assert_eq!(data.dma_buffer_id, Some(5));
    let range = data.memory_range.clone().unwrap();
    assert_eq!(range.protection_id, ProtectionId::HostBuffer);
    assert_eq!(range.range_ipa_start, 0x8400_0000);
    assert_eq!(range.range_size, 8192);
    assert!(data.ta_memory_buffer_ctx.is_none());
    assert_eq!(data.get_ipa().unwrap(), 0x8400_0000);
}

#[test]
fn map_memory_buffer_errors() {
    let vm = FakeVm::new(Ok(5), true);
    let mut m = MemoryManager::new();
    let r: Result<MemoryBufferContextData<FakeTa>, _> =
        map_memory_buffer(Some(&vm), &mut m, Some(&9), -4096, HOST_BUFFER);
    assert!(matches!(r, Err(MemShareError::InvalidValue)));
    let r: Result<MemoryBufferContextData<FakeTa>, _> =
        map_memory_buffer(Some(&vm), &mut m, Some(&9), 4096, 42);
    assert!(matches!(r, Err(MemShareError::ConversionError)));
    let r: Result<MemoryBufferContextData<FakeTa>, _> =
        map_memory_buffer(Some(&vm), &mut m, Some(&9), 4096, SECURE_VIDEO_DECODER_INPUT);
    assert!(matches!(r, Err(MemShareError::InvalidValue)));
    // no VM: the area is taken and the call fails
    let none: Option<&FakeVm> = None;
    let r: Result<MemoryBufferContextData<FakeTa>, _> =
        map_memory_buffer(none, &mut m, Some(&9), 4096, HOST_BUFFER);
    assert!(matches!(r, Err(MemShareError::InvalidState)));
    assert_eq!(m.get_map_area(4096, ProtectionId::HostBuffer).unwrap().0, 0x8800_0000);
}

#[test]
fn failed_vm_mapping_returns_the_area() {
    let vm = FakeVm::new(Ok(-3), true);
    let mut m = MemoryManager::new();
    let r: Result<MemoryBufferContextData<FakeTa>, _> =
        map_memory_buffer(Some(&vm), &mut m, Some(&9), 4096, SECURE_DISPLAY_FRAME_BUFFER);
    assert!(matches!(r, Err(MemShareError::BufferMappingProblem)));
    // the area came back, at the size of the buffer
    assert_eq!(
        m.get_map_area(4096, ProtectionId::SecureDisplayFrameBuffer).unwrap(),
        (SECURE_BUFFER_BASE_ADDRESS, SECURE_BUFFER_BASE_ADDRESS + 4096)
    );
    assert!(matches!(
        m.get_map_area(8192, ProtectionId::SecureDisplayFrameBuffer),
        Err(MemShareError::AllocationError)
    ));
}

#[test]
fn free_resources_releases_everything() {
    let vm = FakeVm::new(Ok(5), true);
    let mut manager = Some(MemoryManager::new());
    let mut data: MemoryBufferContextData<FakeTa> =
        map_memory_buffer(Some(&vm), manager.as_mut().unwrap(), Some(&9), 4096, HOST_BUFFER).unwrap();
    data.ta_memory_buffer_ctx = Some(FakeTa { ok: true });
    assert!(data.free_resources(Some(&vm), &mut manager).is_ok());
    assert_eq!(vm.removed.get(), Some(5));
    assert!(data.ta_memory_buffer_ctx.is_none());
    assert!(data.dma_buffer_id.is_none());
    assert!(data.memory_range.is_none());
    assert!(matches!(data.get_ipa(), Err(MemShareError::InvalidState)));
    // the area is back at full size
    let m = manager.as_mut().unwrap();
    assert_eq!(m.get_map_area(MIB64 as i32, ProtectionId::HostBuffer).unwrap().0, 0x8400_0000);
    // a second release has nothing left to do
    assert!(data.free_resources(Some(&vm), &mut manager).is_ok());
}

#[test]
fn free_resources_stops_at_failed_ta_release() {
    let vm = FakeVm::new(Ok(5), true);
    let mut manager = Some(MemoryManager::new());
    let mut data = MemoryBufferContextData::new(5, ProtectionId::HostBuffer, 0x1000, 4096);
    data.ta_memory_buffer_ctx = Some(FakeTa { ok: false });
    match data.free_resources(Some(&vm), &mut manager) {
        Err(MemShareError::GenericError(msg)) => {
            assert_eq!(msg, "TA releaseMemoryBufferContext call failed")
        }
        other => panic!("unexpected {:?}", other),
    }
    assert!(data.ta_memory_buffer_ctx.is_none());
    assert_eq!(data.dma_buffer_id, Some(5));
    assert!(data.memory_range.is_some());
    assert_eq!(vm.removed.get(), None);
}

#[test]
fn free_resources_stops_at_failed_removal() {
    let vm = FakeVm::new(Ok(5), false);
    let mut manager = Some(MemoryManager::new());
    let mut data: MemoryBufferContextData<FakeTa> =
        MemoryBufferContextData::new(5, ProtectionId::HostBuffer, 0x1000, 4096);
    assert!(matches!(
        data.free_resources(Some(&vm), &mut manager),
        Err(MemShareError::BufferMappingProblem)
    ));
    assert!(data.dma_buffer_id.is_none());
    assert!(data.memory_range.is_some());
    let none: Option<&FakeVm> = None;
    let mut data: MemoryBufferContextData<FakeTa> =
        MemoryBufferContextData::new(5, ProtectionId::HostBuffer, 0x1000, 4096);
    assert!(matches!(data.free_resources(none, &mut manager), Err(MemShareError::InvalidState)));
    assert!(data.memory_range.is_some());
}

#[test]
fn free_resources_needs_a_manager_and_a_shareable_kind() {
    let vm = FakeVm::new(Ok(5), true);
    let mut no_manager: Option<MemoryManager> = None;
    let mut data: MemoryBufferContextData<FakeTa> =
        MemoryBufferContextData::new(5, ProtectionId::HostBuffer, 0x1000, 4096);
    assert!(matches!(
        data.free_resources(Some(&vm), &mut no_manager),
        Err(MemShareError::InvalidState)
    ));
    assert!(data.memory_range.is_none());
    let mut manager = Some(MemoryManager::new());
    let mut data: MemoryBufferContextData<FakeTa> =
        MemoryBufferContextData::new(5, ProtectionId::SecureVideoDecoderInput, 0x1000, 4096);
    assert!(matches!(
        data.free_resources(Some(&vm), &mut manager),
        Err(MemShareError::InvalidValue)
    ));
    let data: MemoryBufferContextData<FakeTa> = MemoryBufferContextData {
        dma_buffer_id: None,
        memory_range: Some(MemoryRange {
            protection_id: ProtectionId::HostBuffer,
            range_ipa_start: 0x7fff_ffff_ffff_ffff,
            range_size: 1,
        }),
        ta_memory_buffer_ctx: None,
    };
    assert_eq!(data.get_ipa().unwrap(), 0x7fff_ffff_ffff_ffff);
}

#[test]
fn vm_gets_the_exact_range_and_its_id_is_recorded() {
    let vm = FakeVm::new(Ok(11), true);
    assert_eq!(add_memory_mapping(Some(&vm), Some(&0), 0x1000, 0x3000).unwrap(), 11);
    assert_eq!(vm.mapped.get(), Some((0x1000, 0x3000)));
    assert!(remove_memory_mapping(Some(&vm), 11).is_ok());
    assert_eq!(vm.removed.get(), Some(11));
}

#[test]
fn descriptor_that_could_not_be_duplicated_is_invalid() {
    let vm = FakeVm::new(Ok(5), true);
    let none_fd: Option<&u32> = None;
    assert!(matches!(
        add_memory_mapping(Some(&vm), none_fd, 1, 2),
        Err(MemShareError::InvalidValue)
    ));
    assert_eq!(vm.mapped.get(), None);
    let mut m = MemoryManager::new();
    let r: Result<MemoryBufferContextData<FakeTa>, _> =
        map_memory_buffer(Some(&vm), &mut m, none_fd, 4096, HOST_BUFFER);
    assert!(matches!(r, Err(MemShareError::InvalidValue)));
    assert_eq!(vm.mapped.get(), None);
    // the area was taken before the descriptor was needed
    assert_eq!(m.get_map_area(4096, ProtectionId::HostBuffer).unwrap().0, 0x8800_0000);
}

#[test]
fn recording_a_mapping() {
    let mut m = MemoryManager::new();
    let (start, end) = m.get_map_area(8192, ProtectionId::HostBuffer).unwrap();
    let data: MemoryBufferContextData<FakeTa> =
        record_mapping(&mut m, ProtectionId::HostBuffer, start, end, 0).unwrap();
    assert_eq!(data.dma_buffer_id, Some(0));
    assert_eq!(data.memory_range.clone().unwrap().range_size, 8192);
    let r: Result<MemoryBufferContextData<FakeTa>, _> =
        record_mapping(&mut m, ProtectionId::HostBuffer, 0x5000, 0x6000, -7);
    assert!(matches!(r, Err(MemShareError::BufferMappingProblem)));
    assert_eq!(m.get_map_area(4096, ProtectionId::HostBuffer).unwrap(), (0x5000, 0x6000));
}

#[test]
fn refused_sizes_do_not_need_room_above_the_area() {
    let mut m = MemoryManager::new();
    m.add_area(ProtectionId::HostBuffer, u64::MAX - 4096, 4096).unwrap();
    assert!(m.next_area_fits(4097, ProtectionId::HostBuffer));
    assert!(matches!(m.get_map_area(4097, ProtectionId::HostBuffer), Err(MemShareError::InvalidValue)));
    assert!(m.next_area_fits(4096, ProtectionId::HostBuffer));
    assert!(!m.next_area_fits(8192, ProtectionId::HostBuffer));
    assert_eq!(m.get_map_area(4096, ProtectionId::HostBuffer).unwrap(), (u64::MAX - 4096, u64::MAX));
}

#[test]
fn error_messages() {
    assert_eq!(
        MemShareError::BinderError("7".to_string()).message(),
        "Port configuration error for port: 7"
    );
    assert_eq!(MemShareError::ConversionError.message(), "Couldn't convert value");
    assert_eq!(MemShareError::InvalidValue.message(), "Invalid value provided");
    assert_eq!(MemShareError::AllocationError.message(), "Resources exhausted");
    assert_eq!(MemShareError::InvalidState.message(), "System was found on an invalid state");
    assert_eq!(MemShareError::BufferMappingProblem.message(), "Error found when mapping buffer");
    assert_eq!(MemShareError::GenericError("x".to_string()).message(), "An error occurred: x");
}

use brainworms::settings::{
    argument_fields, device_name_filter, extract_backend, extract_msaa, extract_profile,
    extract_vsync, Backend, PresentMode, RendererProfile, SampleCount, SettingError,
};

#[test]
fn backends_by_any_of_their_names() {
    assert_eq!(extract_backend("vk"), Ok(Backend::Vulkan));
    assert_eq!(extract_backend("Vulkan"), Ok(Backend::Vulkan));
    assert_eq!(extract_backend("DX12"), Ok(Backend::Dx12));
    assert_eq!(extract_backend("11"), Ok(Backend::Dx11));
    assert_eq!(extract_backend("mtl"), Ok(Backend::Metal));
    assert_eq!(extract_backend("OpenGL"), Ok(Backend::Gl));
    assert_eq!(extract_backend("gl"), Ok(Backend::Gl));
    assert_eq!(extract_backend("glide"), Err(SettingError::UnknownBackend));
    assert_eq!(extract_backend(""), Err(SettingError::UnknownBackend));
}

#[test]
fn profiles_by_any_of_their_names() {
    assert_eq!(extract_profile("CPU"), Ok(RendererProfile::CpuDriven));
    assert_eq!(extract_profile("legacy"), Ok(RendererProfile::CpuDriven));
    assert_eq!(extract_profile("g"), Ok(RendererProfile::GpuDriven));
    assert_eq!(extract_profile("Modern"), Ok(RendererProfile::GpuDriven));
    assert_eq!(extract_profile("tpu"), Err(SettingError::UnknownRenderMode));
}

#[test]
fn sample_counts_are_one_or_four() {
    assert_eq!(extract_msaa("1"), Ok(SampleCount::One));
    assert_eq!(extract_msaa("4"), Ok(SampleCount::Four));
    assert_eq!(extract_msaa("2"), Err(SettingError::InvalidMsaaCount));
    assert_eq!(extract_msaa(" 4"), Err(SettingError::InvalidMsaaCount));
}

#[test]
fn present_modes_by_name() {
    assert_eq!(extract_vsync("immediate"), Ok(PresentMode::Immediate));
    assert_eq!(extract_vsync("FIFO"), Ok(PresentMode::Fifo));
    assert_eq!(extract_vsync("Mailbox"), Ok(PresentMode::Mailbox));
    assert_eq!(extract_vsync("fifo_relaxed"), Ok(PresentMode::FifoRelaxed));
    assert_eq!(extract_vsync("Fifo_Relaxed"), Ok(PresentMode::FifoRelaxed));
    assert_eq!(extract_vsync("adaptive"), Err(SettingError::InvalidVsyncMode));
}

#[test]
fn error_messages() {
    assert_eq!(SettingError::UnknownBackend.message(), "unknown backend");
    assert_eq!(SettingError::UnknownRenderMode.message(), "unknown rendermode");
    assert_eq!(SettingError::InvalidMsaaCount.message(), "invalid msaa count");
    assert_eq!(SettingError::InvalidVsyncMode.message(), "invalid msaa count");
}

#[test]
fn device_names_are_matched_in_lower_case() {
    assert_eq!(device_name_filter("NVIDIA GeForce"), "nvidia geforce");
}

#[test]
fn list_options_split_at_commas() {
    let fields = argument_fields(" 1.5, 2 ,3", 3).expect("three fields");
    assert_eq!(fields, vec!["1.5".to_string(), "2".to_string(), "3".to_string()]);
    assert!(argument_fields("1,2", 3).is_none());
    assert!(argument_fields("1,2,3,4", 3).is_none());
    let fields = argument_fields(",,", 3).expect("three empty fields");
    assert_eq!(fields, vec![String::new(), String::new(), String::new()]);
    let fields = argument_fields("", 1).expect("one empty field");
    assert_eq!(fields, vec![String::new()]);
    let fields = argument_fields("3,3,3,-0.39,0.78", 5).expect("five fields");
    assert_eq!(fields[3], "-0.39");
}

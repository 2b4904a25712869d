use field_compute::error::{ConfigError, RunError, ShaderDecodeError};

#[test]
fn messages_of_the_run_errors() {
    assert_eq!(RunError::NoAdapterAvailable.message(), "No adapter available");
    assert_eq!(RunError::MappingFailed.message(), "mapping failed");
    assert_eq!(RunError::FileIo("denied".to_string()).message(), "File error: denied");
    assert_eq!(
        RunError::Encode("bad size".to_string()).message(),
        "Writing image failed: bad size"
    );
    assert_eq!(RunError::FileIo(String::new()).message(), "File error: ");
}

#[test]
fn messages_of_the_shader_errors() {
    assert_eq!(
        ShaderDecodeError::LengthNotWordMultiple.message(),
        "input length not divisible by 4"
    );
    assert_eq!(
        RunError::ShaderDecode(ShaderDecodeError::MissingMagicNumber).message(),
        "input missing SPIR-V magic number"
    );
}

#[test]
fn messages_of_the_configuration_errors() {
    let all = [
        ConfigError::GridTooLarge,
        ConfigError::MalformedLayout,
        ConfigError::SlotCountMismatch { slots: 4, buffers: 3 },
        ConfigError::FieldLengthMismatch { slot: 1 },
        ConfigError::OutOfSequence,
    ];
    for (i, e) in all.iter().enumerate() {
        assert!(!e.message().is_empty());
        assert_eq!(RunError::Config(*e).message(), e.message());
        for other in &all[i + 1..] {
            assert_ne!(e.message(), other.message());
        }
    }
}

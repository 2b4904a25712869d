use field_compute::error::{ConfigError, RunError};
use field_compute::buffer::FieldBuffer;
use field_compute::export::{compose_raster, export_fields, finish_export, write_image, FieldRead};
use field_compute::field::FieldUsage;

fn bits(samples: &[f32]) -> Vec<u32> {
    samples.iter().map(|s| s.to_bits()).collect()
}

#[test]
fn red_only_export_is_white_in_green_and_blue() {
    let red = bits(&[-1.0, -0.5, 0.0, 0.5, 1.0, 0.25]);
    let raster = compose_raster(Some(&red), None, None, 6);
    assert_eq!(
        raster,
        vec![
            0, 255, 255, 255, 64, 255, 255, 255, 128, 255, 255, 255, 192, 255, 255, 255, 255,
            255, 255, 255, 160, 255, 255, 255
        ]
    );
}

#[test]
fn no_field_gives_a_white_raster() {
    assert_eq!(compose_raster(None, None, None, 3), vec![255u8; 12]);
    assert_eq!(compose_raster(None, None, None, 0), Vec::<u8>::new());
}

#[test]
fn each_field_fills_its_own_channel() {
    let r = bits(&[0.0, 1.0]);
    let g = bits(&[-1.0, 0.5]);
    let b = bits(&[-0.5, -2.0]);
    let raster = compose_raster(Some(&r), Some(&g), Some(&b), 2);
    assert_eq!(raster, vec![128, 0, 64, 255, 255, 192, 0, 255]);
    let raster = compose_raster(None, Some(&g), None, 2);
    assert_eq!(raster, vec![255, 0, 255, 255, 255, 192, 255, 255]);
    let raster = compose_raster(None, None, Some(&b), 2);
    assert_eq!(raster, vec![255, 255, 64, 255, 255, 255, 0, 255]);
}

#[test]
fn out_of_range_samples_are_clamped() {
    let r = bits(&[-3.0, 7.5, f32::NEG_INFINITY, f32::INFINITY]);
    let raster = compose_raster(Some(&r), None, None, 4);
    assert_eq!(raster[0], 0);
    assert_eq!(raster[4], 255);
    assert_eq!(raster[8], 0);
    assert_eq!(raster[12], 255);
}

#[test]
fn written_image_decodes_to_the_raster() {
    let red = bits(&[-1.0, -0.5, 0.0, 0.5, 1.0, 0.25]);
    let green = bits(&[0.0, 0.0, 0.75, -0.75, 0.1, -0.1]);
    let file = write_image(Some(&red), Some(&green), None, 3, 2).unwrap();
    assert_eq!(&file[..8], &[137, 80, 78, 71, 13, 10, 26, 10]);
    let decoded = image::load_from_memory(&file).unwrap().to_rgba8();
    assert_eq!(decoded.width(), 3);
    assert_eq!(decoded.height(), 2);
    assert_eq!(
        decoded.into_raw(),
        compose_raster(Some(&red), Some(&green), None, 6)
    );
}

#[test]
fn written_image_of_the_reference_grid() {
    let red = vec![0u32; 400 * 500];
    let file = write_image(Some(&red), None, None, 400, 500).unwrap();
    let decoded = image::load_from_memory(&file).unwrap().to_rgba8();
    assert_eq!(decoded.width(), 400);
    assert_eq!(decoded.height(), 500);
    for pixel in decoded.pixels() {
        assert_eq!(pixel.0, [128, 255, 255, 255]);
    }
}

#[test]
fn field_of_another_size_is_a_configuration_error() {
    let short = bits(&[0.0; 5]);
    let fits = bits(&[0.0; 6]);
    assert!(matches!(
        write_image(Some(&short), None, None, 3, 2),
        Err(RunError::Config(ConfigError::FieldLengthMismatch { slot: 0 }))
    ));
    assert!(matches!(
        write_image(Some(&fits), Some(&short), Some(&short), 3, 2),
        Err(RunError::Config(ConfigError::FieldLengthMismatch { slot: 1 }))
    ));
    assert!(matches!(
        write_image(None, None, Some(&short), 3, 2),
        Err(RunError::Config(ConfigError::FieldLengthMismatch { slot: 2 }))
    ));
    let long = bits(&[0.0; 7]);
    assert!(matches!(
        write_image(Some(&long), None, None, 3, 2),
        Err(RunError::Config(ConfigError::FieldLengthMismatch { slot: 0 }))
    ));
}

#[test]
fn grid_that_does_not_fit_is_a_configuration_error() {
    assert!(matches!(
        write_image(None, None, None, u32::MAX, u32::MAX),
        Err(RunError::Config(ConfigError::GridTooLarge))
    ));
}

#[test]
fn empty_grid_is_refused_by_the_encoder() {
    assert!(matches!(write_image(None, None, None, 0, 0), Err(RunError::Encode(_))));
    assert!(matches!(write_image(None, None, None, 0, 5), Err(RunError::Encode(_))));
    assert!(matches!(write_image(None, None, None, 5, 0), Err(RunError::Encode(_))));
}

#[test]
fn encoder_result_becomes_the_result_of_the_export() {
    assert_eq!(finish_export(Ok(vec![1, 2, 3])).unwrap(), vec![1, 2, 3]);
    match finish_export(Err("broken".to_string())) {
        Err(RunError::Encode(detail)) => assert_eq!(detail, "broken"),
        _ => panic!("the encoder's error was lost"),
    }
}

fn field_buffer(byte_len: u64) -> FieldBuffer {
    FieldBuffer::new(byte_len, FieldUsage { map_read: true, uniform: true, storage: true })
}

#[test]
fn export_of_read_fields_is_the_written_image() {
    let red = bits(&[-1.0, -0.5, 0.0, 0.5, 1.0, 0.25]);
    let blue = bits(&[0.0, 0.0, 0.75, -0.75, 0.1, -0.1]);
    let file = export_fields(
        Some(FieldRead { buffer: field_buffer(24), answer: Some(&red) }),
        None,
        Some(FieldRead { buffer: field_buffer(24), answer: Some(&blue) }),
        3,
        2,
    )
    .unwrap();
    assert_eq!(file, write_image(Some(&red), None, Some(&blue), 3, 2).unwrap());
    let decoded = image::load_from_memory(&file).unwrap().to_rgba8();
    assert_eq!(decoded.into_raw(), compose_raster(Some(&red), None, Some(&blue), 6));
}

#[test]
fn export_of_a_field_that_is_mapped_already_fails() {
    let red = bits(&[0.0; 6]);
    let mut buffer = field_buffer(24);
    assert!(buffer.map_read(0, 24).is_ok());
    assert!(buffer.resolve(true).is_ok());
    let file = export_fields(Some(FieldRead { buffer, answer: Some(&red) }), None, None, 3, 2);
    match file {
        Err(error) => {
            assert!(matches!(error, RunError::MappingFailed));
            assert_eq!(error.message(), "mapping failed");
        },
        Ok(_) => panic!("a second mapping was answered"),
    }
    let mut pending = field_buffer(24);
    assert!(pending.map_read(0, 24).is_ok());
    let file =
        export_fields(Some(FieldRead { buffer: pending, answer: Some(&red) }), None, None, 3, 2);
    assert!(matches!(file, Err(RunError::MappingFailed)));
}

#[test]
fn export_fails_whichever_field_was_refused() {
    let samples = bits(&[0.0; 6]);
    let read = Some(FieldRead { buffer: field_buffer(24), answer: Some(&samples[..]) });
    let refused = Some(FieldRead { buffer: field_buffer(24), answer: None });
    for (r, g, b) in [
        (refused, None, None),
        (None, refused, None),
        (None, None, refused),
        (read, refused, None),
        (read, read, refused),
        (refused, read, read),
        (read, refused, read),
        (refused, refused, refused),
    ] {
        assert!(matches!(export_fields(r, g, b, 3, 2), Err(RunError::MappingFailed)));
    }
    assert!(export_fields(read, read, read, 3, 2).is_ok());
    assert!(export_fields(None, None, None, 3, 2).is_ok());
}

#[test]
fn export_of_a_field_that_is_not_host_readable_fails() {
    let samples = bits(&[0.0; 6]);
    let buffer =
        FieldBuffer::new(24, FieldUsage { map_read: false, uniform: true, storage: true });
    let file = export_fields(None, Some(FieldRead { buffer, answer: Some(&samples) }), None, 3, 2);
    assert!(matches!(file, Err(RunError::MappingFailed)));
}

#[test]
fn refused_mapping_comes_before_a_mismatch() {
    let short = bits(&[0.0; 5]);
    let file = export_fields(
        Some(FieldRead { buffer: field_buffer(20), answer: Some(&short) }),
        Some(FieldRead { buffer: field_buffer(24), answer: None }),
        None,
        3,
        2,
    );
    assert!(matches!(file, Err(RunError::MappingFailed)));
    let file = export_fields(
        Some(FieldRead { buffer: field_buffer(20), answer: Some(&short) }),
        None,
        None,
        3,
        2,
    );
    assert!(matches!(
        file,
        Err(RunError::Config(ConfigError::FieldLengthMismatch { slot: 0 }))
    ));
}

#[test]
fn every_written_image_of_a_grid_with_cells_succeeds() {
    for (width, height) in [(1u32, 1u32), (1, 7), (7, 1), (5, 4), (64, 3)] {
        let cells = (width * height) as usize;
        let field = vec![0.5f32.to_bits(); cells];
        let file = write_image(None, Some(&field), None, width, height).unwrap();
        let decoded = image::load_from_memory(&file).unwrap().to_rgba8();
        assert_eq!(decoded.width(), width);
        assert_eq!(decoded.height(), height);
        assert_eq!(decoded.into_raw(), compose_raster(None, Some(&field), None, cells));
    }
}

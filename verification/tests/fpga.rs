use maia_sdr::fpga::{
    ddc_config_step,
    check_num_integrations, ddc_decimation, ddc_stage_limits, fir_plan, fir_program,
    recorder_mode_from_register, recorder_mode_to_register, spectrometer_input_decimation,
    BufferRing, DdcFirs, FirError, FirPlan, FirStage, RegisterError, StageLimit,
};
use maia_sdr::json::{DDCFIRConfig, RecorderMode, SpectrometerInput};

#[test]
fn fir_plan_counts_operations() {
    assert_eq!(
        fir_plan(FirStage::Fir1, &[1, 2, 3, 4, 5], 2),
        Ok(FirPlan { operations: 2, odd_operations: true })
    );
    assert_eq!(
        fir_plan(FirStage::Fir2, &[1, 2, 3, 4, 5], 2),
        Ok(FirPlan { operations: 3, odd_operations: true })
    );
    assert_eq!(
        fir_plan(FirStage::Fir3, &[1; 8], 2),
        Ok(FirPlan { operations: 2, odd_operations: false })
    );
}

#[test]
fn fir_plan_errors() {
    assert_eq!(fir_plan(FirStage::Fir1, &[131072], 2), Err(FirError::CoefficientOutOfRange));
    assert_eq!(fir_plan(FirStage::Fir1, &[-131073], 2), Err(FirError::CoefficientOutOfRange));
    assert_eq!(
        fir_plan(FirStage::Fir1, &[131071, -131072], 2),
        Ok(FirPlan { operations: 1, odd_operations: true })
    );
    assert_eq!(fir_plan(FirStage::Fir1, &[1], 1), Err(FirError::DecimationOutOfRange));
    assert_eq!(fir_plan(FirStage::Fir1, &[1], 128), Err(FirError::DecimationOutOfRange));
    assert_eq!(fir_plan(FirStage::Fir1, &[], 2), Err(FirError::NoCoefficients));
    // coefficient range is checked before decimation
    assert_eq!(fir_plan(FirStage::Fir1, &[1 << 20], 0), Err(FirError::CoefficientOutOfRange));
    assert_eq!(fir_plan(FirStage::Fir2, &[1; 258], 2), Err(FirError::TooManyOperations));
    assert!(fir_plan(FirStage::Fir1, &[1; 258], 2).is_ok());
}

#[test]
fn fir_program_folded_layout() {
    let coefficients = [1, 2, 3, 4, 5];
    let plan = fir_plan(FirStage::Fir1, &coefficients, 2).unwrap();
    let program = fir_program(FirStage::Fir1, &coefficients, 2, plan).unwrap();
    assert_eq!(program.base_address, 0);
    assert_eq!(program.ram.len(), 256);
    assert_eq!(&program.ram[0..4], &[2, 0, 1, 5]);
    assert_eq!(&program.ram[128..132], &[4, 0, 3, 0]);
    assert!(program.ram[4..128].iter().all(|&c| c == 0));
    assert!(program.ram[132..].iter().all(|&c| c == 0));
    assert_eq!(program.decimation, 2);
    assert_eq!(program.operations_minus_one, 1);
    assert!(program.odd_operations);
}

#[test]
fn fir_program_unfolded_layout() {
    let coefficients = [1, 2, 3, 4, 5];
    let plan = fir_plan(FirStage::Fir2, &coefficients, 2).unwrap();
    let program = fir_program(FirStage::Fir2, &coefficients, 2, plan).unwrap();
    assert_eq!(program.base_address, 256);
    assert_eq!(program.ram.len(), 128);
    // row of phase 0 holds coefficients 1, 3, 5 (indices 1, 3, 5), row of phase 1 holds 0, 2, 4
    assert_eq!(&program.ram[0..6], &[2, 4, 0, 1, 3, 5]);
    assert!(program.ram[6..].iter().all(|&c| c == 0));
    assert_eq!(program.operations_minus_one, 2);
}

#[test]
fn fir_program_does_not_fit() {
    let coefficients = [1; 130];
    let plan = fir_plan(FirStage::Fir2, &coefficients, 2).unwrap();
    assert!(matches!(
        fir_program(FirStage::Fir2, &coefficients, 2, plan),
        Err(FirError::DoesNotFitRam)
    ));
    let plan = fir_plan(FirStage::Fir3, &coefficients, 2).unwrap();
    let program = fir_program(FirStage::Fir3, &coefficients, 2, plan).unwrap();
    assert_eq!(program.base_address, 512);
}

#[test]
fn recorder_mode_register() {
    for mode in [RecorderMode::IQ8bit, RecorderMode::IQ12bit, RecorderMode::IQ16bit] {
        assert_eq!(recorder_mode_from_register(recorder_mode_to_register(mode)), Ok(mode));
    }
    assert_eq!(recorder_mode_to_register(RecorderMode::IQ16bit), 0);
    assert_eq!(recorder_mode_to_register(RecorderMode::IQ12bit), 1);
    assert_eq!(recorder_mode_to_register(RecorderMode::IQ8bit), 2);
    assert_eq!(recorder_mode_from_register(3), Err(RegisterError::InvalidRecorderMode));
}

#[test]
fn number_of_integrations() {
    assert_eq!(check_num_integrations(0, 5), Err(RegisterError::InvalidNumberIntegrations));
    assert_eq!(check_num_integrations(1024, 5), Err(RegisterError::InvalidNumberIntegrations));
    assert_eq!(check_num_integrations(1023, 5), Ok(false));
    assert_eq!(check_num_integrations(3, 5), Ok(true));
    assert_eq!(check_num_integrations(5, 5), Ok(false));
}

#[test]
fn buffer_ring_hands_out_consecutive_buffers() {
    assert!(matches!(BufferRing::new(6), Err(RegisterError::NumBuffersNotPowerOfTwo)));
    assert!(matches!(BufferRing::new(0), Err(RegisterError::NumBuffersNotPowerOfTwo)));
    let mut ring = BufferRing::new(8).unwrap();
    assert_eq!(ring.new_buffers(3), Vec::<usize>::new());
    assert_eq!(ring.new_buffers(5), vec![4, 5]);
    assert_eq!(ring.new_buffers(5), Vec::<usize>::new());
    assert_eq!(ring.new_buffers(1), vec![6, 7, 0, 1]);
    assert_eq!(ring.new_buffers(0), vec![2, 3, 4, 5, 6, 7, 0]);
}

fn fir(n: usize, decimation: u32) -> DDCFIRConfig {
    DDCFIRConfig { coefficients: vec![1; n], decimation }
}

#[test]
fn ddc_decimation_and_limits() {
    let firs = DdcFirs { fir1: fir(40, 5), fir2: None, fir3: Some(fir(30, 4)) };
    assert_eq!(ddc_decimation(&firs), 20);
    assert_eq!(
        ddc_stage_limits(&firs),
        vec![
            StageLimit { decimation_before: 1, operations: 4 },
            StageLimit { decimation_before: 5, operations: 4 },
        ]
    );
    let firs = DdcFirs { fir1: fir(41, 2), fir2: Some(fir(9, 3)), fir3: Some(fir(7, 2)) };
    assert_eq!(ddc_decimation(&firs), 12);
    assert_eq!(
        ddc_stage_limits(&firs),
        vec![
            StageLimit { decimation_before: 1, operations: 11 },
            StageLimit { decimation_before: 2, operations: 3 },
            StageLimit { decimation_before: 6, operations: 2 },
        ]
    );
    assert_eq!(spectrometer_input_decimation(SpectrometerInput::AD9361, &firs), 1);
    assert_eq!(spectrometer_input_decimation(SpectrometerInput::DDC, &firs), 12);
}

#[test]
fn ddc_config_update_keeps_or_reverts() {
    let ok = ddc_config_step("old", "new", Ok::<(), &str>(()));
    assert_eq!(ok.stored, "new");
    assert!(!ok.reprogram_stored);
    assert_eq!(ok.result, Ok(()));
    let failed = ddc_config_step("old", "new", Err("too many operations"));
    assert_eq!(failed.stored, "old");
    assert!(failed.reprogram_stored);
    assert_eq!(failed.result, Err("too many operations"));
}

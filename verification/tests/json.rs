use maia_sdr::httpd::JsonError;
use maia_sdr::iio::{strip_db_suffix, Ad9361GainMode as IioGainMode};
use maia_sdr::json::{
    Ad9361GainMode, ErrorAction, RecorderMode, SpectrometerInput, SpectrometerMode,
};
use maia_sdr::sigmf::{Datatype, Endianness, Field, SampleFormat};
use maia_sdr::ui::colormap::Colormap;

#[test]
fn gain_mode_names() {
    assert_eq!(Ad9361GainMode::from_str("Fast attack"), Ok(Ad9361GainMode::FastAttack));
    assert_eq!(Ad9361GainMode::from_str("fast attack"), Err(()));
    for m in [
        Ad9361GainMode::Manual,
        Ad9361GainMode::FastAttack,
        Ad9361GainMode::SlowAttack,
        Ad9361GainMode::Hybrid,
    ] {
        assert_eq!(Ad9361GainMode::from_str(&m.to_string()), Ok(m));
    }
    assert_eq!(Ad9361GainMode::SlowAttack.to_string(), "Slow attack");
}

#[test]
fn spectrometer_and_recorder_names() {
    assert_eq!(SpectrometerInput::from_str("DDC"), Ok(SpectrometerInput::DDC));
    assert_eq!(SpectrometerInput::AD9361.to_string(), "AD9361");
    assert_eq!(SpectrometerMode::from_str("Peak detect"), Ok(SpectrometerMode::PeakDetect));
    assert_eq!(SpectrometerMode::Average.to_string(), "Average");
    assert_eq!(RecorderMode::from_str("12 bit IQ"), Ok(RecorderMode::IQ12bit));
    assert_eq!(RecorderMode::IQ16bit.to_string(), "16 bit IQ");
    assert_eq!(RecorderMode::from_str(""), Err(()));
}

#[test]
fn iio_gain_mode_names() {
    assert_eq!(IioGainMode::from_str("slow_attack"), Ok(IioGainMode(Ad9361GainMode::SlowAttack)));
    assert_eq!(IioGainMode::from_str("Slow attack"), Err(()));
    assert_eq!(IioGainMode(Ad9361GainMode::Manual).to_string(), "manual");
    assert_eq!(IioGainMode::from(Ad9361GainMode::Hybrid).to_string(), "hybrid");
    assert_eq!(Ad9361GainMode::from(IioGainMode(Ad9361GainMode::Hybrid)), Ad9361GainMode::Hybrid);
}

#[test]
fn gain_values_in_db() {
    assert_eq!(strip_db_suffix("71.000000 dB"), Some("71.000000"));
    assert_eq!(strip_db_suffix(" dB"), Some(""));
    assert_eq!(strip_db_suffix("71.000000"), None);
    assert_eq!(strip_db_suffix("71.000000dB"), None);
    assert_eq!(strip_db_suffix("dB"), None);
}

#[test]
fn sigmf_datatypes() {
    let ci16 = Datatype { field: Field::Complex, format: SampleFormat::I16(Endianness::Le) };
    assert_eq!(ci16.to_string(), "ci16_le");
    assert_eq!(Datatype::from(RecorderMode::IQ12bit), ci16);
    assert_eq!(Datatype::from(RecorderMode::IQ16bit), ci16);
    assert_eq!(
        Datatype::from(RecorderMode::IQ8bit),
        Datatype { field: Field::Complex, format: SampleFormat::I8 }
    );
    assert_eq!(Datatype::from(RecorderMode::IQ8bit).to_string(), "ci8");
    assert_eq!(
        Datatype { field: Field::Real, format: SampleFormat::F32(Endianness::Be) }.to_string(),
        "rf32_be"
    );
    assert_eq!(Datatype { field: Field::Real, format: SampleFormat::U8 }.to_string(), "ru8");
}

#[test]
fn colormap_names() {
    assert_eq!(Colormap::from_str("Viridis"), Ok(Colormap::Viridis));
    assert_eq!(Colormap::from_str("viridis"), Err(()));
    assert_eq!(Colormap::Inferno.to_string(), "Inferno");
    for c in [Colormap::Turbo, Colormap::Viridis, Colormap::Inferno] {
        assert_eq!(Colormap::from_str(&c.to_string()), Ok(c));
    }
}

#[test]
fn json_errors() {
    let e = JsonError::client_error_alert("bad".to_string());
    assert_eq!(e.0.http_status_code, 400);
    assert_eq!(e.0.error_description, "bad");
    assert_eq!(e.0.suggested_action, ErrorAction::Alert);
    let e = JsonError::client_error("x".to_string());
    assert_eq!((e.0.http_status_code, e.0.suggested_action), (400, ErrorAction::Log));
    let e = JsonError::server_error("y".to_string());
    assert_eq!((e.0.http_status_code, e.0.suggested_action), (500, ErrorAction::Log));
    let e = JsonError::from_error("z".to_string(), 418, ErrorAction::Ignore);
    assert_eq!((e.0.http_status_code, e.0.suggested_action), (418, ErrorAction::Ignore));
}

//! JSON schema types shared by the HTTP server and the web client.
//!
//! The enums that the schema names by text have a `from_str` parser and a
//! `to_string` printer; parsing what is printed gives the value back.

use vstd::prelude::*;
use crate::text::str_eq;

verus! {
/// AD9361 gain control modes.
#[derive(Debug, Copy, Clone, PartialEq, Eq, Hash, Structural)]
pub enum Ad9361GainMode {
    /// Manual AGC.
    Manual,
    /// Fast attack AGC.
    FastAttack,
    /// Slow attack AGC.
    SlowAttack,
    /// Hybrid AGC.
    Hybrid,
}

/// The text that names each value of [`Ad9361GainMode`].
pub open spec fn gain_mode_name(x: Ad9361GainMode) -> Seq<char> {
    match x {
        Ad9361GainMode::Manual => "Manual"@,
        Ad9361GainMode::FastAttack => "Fast attack"@,
        Ad9361GainMode::SlowAttack => "Slow attack"@,
        Ad9361GainMode::Hybrid => "Hybrid"@,
    }
}

/// The value of [`Ad9361GainMode`] that a text names, if any.
pub open spec fn gain_mode_parse(s: Seq<char>) -> Result<Ad9361GainMode, ()> {
    if s == "Manual"@ {
        Ok(Ad9361GainMode::Manual)
    } else if s == "Fast attack"@ {
        Ok(Ad9361GainMode::FastAttack)
    } else if s == "Slow attack"@ {
        Ok(Ad9361GainMode::SlowAttack)
    } else if s == "Hybrid"@ {
        Ok(Ad9361GainMode::Hybrid)
    } else {
        Err(())
    }
}

impl Ad9361GainMode {
    /// Parses a value from the text that names it.
    pub fn from_str(s: &str) -> (r: Result<Ad9361GainMode, ()>)
        ensures
            r == gain_mode_parse(s@),
    {
        if str_eq(s, "Manual") {
            Ok(Ad9361GainMode::Manual)
        } else if str_eq(s, "Fast attack") {
            Ok(Ad9361GainMode::FastAttack)
        } else if str_eq(s, "Slow attack") {
            Ok(Ad9361GainMode::SlowAttack)
        } else if str_eq(s, "Hybrid") {
            Ok(Ad9361GainMode::Hybrid)
        } else {
            Err(())
        }
    }

    /// Returns the text that names the value.
    pub fn to_string(&self) -> (r: String)
        ensures
            r@ == gain_mode_name(*self),
    {
        match self {
            Ad9361GainMode::Manual => String::from_str("Manual"),
            Ad9361GainMode::FastAttack => String::from_str("Fast attack"),
            Ad9361GainMode::SlowAttack => String::from_str("Slow attack"),
            Ad9361GainMode::Hybrid => String::from_str("Hybrid"),
        }
    }
}

/// Parsing the name of a value of [`Ad9361GainMode`] gives the value back, and a
/// text that parses is the name of what it parses to.
pub proof fn lemma_gain_mode_roundtrip(x: Ad9361GainMode, s: Seq<char>)
    ensures
        gain_mode_parse(gain_mode_name(x)) == Ok::<Ad9361GainMode, ()>(x),
        gain_mode_parse(s) matches Ok(y) ==> gain_mode_name(y) == s,
{
    reveal_strlit("Manual");
    reveal_strlit("Fast attack");
    reveal_strlit("Slow attack");
    reveal_strlit("Hybrid");
    assert("Manual"@.len() != "Fast attack"@.len());
    assert("Manual"@.len() != "Slow attack"@.len());
    assert("Manual"@[0] != "Hybrid"@[0]);
    assert("Fast attack"@[0] != "Slow attack"@[0]);
    assert("Fast attack"@.len() != "Hybrid"@.len());
    assert("Slow attack"@.len() != "Hybrid"@.len());
}

/// Spectrometer input source.
#[derive(Debug, Copy, Clone, PartialEq, Eq, Hash, Structural)]
pub enum SpectrometerInput {
    /// AD9361 IQ ADC output.
    AD9361,
    /// DDC output.
    DDC,
}

/// The text that names each value of [`SpectrometerInput`].
pub open spec fn spectrometer_input_name(x: SpectrometerInput) -> Seq<char> {
    match x {
        SpectrometerInput::AD9361 => "AD9361"@,
        SpectrometerInput::DDC => "DDC"@,
    }
}

/// The value of [`SpectrometerInput`] that a text names, if any.
pub open spec fn spectrometer_input_parse(s: Seq<char>) -> Result<SpectrometerInput, ()> {
    if s == "AD9361"@ {
        Ok(SpectrometerInput::AD9361)
    } else if s == "DDC"@ {
        Ok(SpectrometerInput::DDC)
    } else {
        Err(())
    }
}

impl SpectrometerInput {
    /// Parses a value from the text that names it.
    pub fn from_str(s: &str) -> (r: Result<SpectrometerInput, ()>)
        ensures
            r == spectrometer_input_parse(s@),
    {
        if str_eq(s, "AD9361") {
            Ok(SpectrometerInput::AD9361)
        } else if str_eq(s, "DDC") {
            Ok(SpectrometerInput::DDC)
        } else {
            Err(())
        }
    }

    /// Returns the text that names the value.
    pub fn to_string(&self) -> (r: String)
        ensures
            r@ == spectrometer_input_name(*self),
    {
        match self {
            SpectrometerInput::AD9361 => String::from_str("AD9361"),
            SpectrometerInput::DDC => String::from_str("DDC"),
        }
    }
}

/// Parsing the name of a value of [`SpectrometerInput`] gives the value back, and a
/// text that parses is the name of what it parses to.
pub proof fn lemma_spectrometer_input_roundtrip(x: SpectrometerInput, s: Seq<char>)
    ensures
        spectrometer_input_parse(spectrometer_input_name(x)) == Ok::<SpectrometerInput, ()>(x),
        spectrometer_input_parse(s) matches Ok(y) ==> spectrometer_input_name(y) == s,
{
    reveal_strlit("AD9361");
    reveal_strlit("DDC");
    assert("AD9361"@.len() != "DDC"@.len());
}

/// Spectrometer mode.
#[derive(Debug, Copy, Clone, PartialEq, Eq, Hash, Structural)]
pub enum SpectrometerMode {
    /// Power average mode: the average power over the integration period.
    Average,
    /// Peak detect mode: the maximum power over the integration period.
    PeakDetect,
}

/// The text that names each value of [`SpectrometerMode`].
pub open spec fn spectrometer_mode_name(x: SpectrometerMode) -> Seq<char> {
    match x {
        SpectrometerMode::Average => "Average"@,
        SpectrometerMode::PeakDetect => "Peak detect"@,
    }
}

/// The value of [`SpectrometerMode`] that a text names, if any.
pub open spec fn spectrometer_mode_parse(s: Seq<char>) -> Result<SpectrometerMode, ()> {
    if s == "Average"@ {
        Ok(SpectrometerMode::Average)
    } else if s == "Peak detect"@ {
        Ok(SpectrometerMode::PeakDetect)
    } else {
        Err(())
    }
}

impl SpectrometerMode {
    /// Parses a value from the text that names it.
    pub fn from_str(s: &str) -> (r: Result<SpectrometerMode, ()>)
        ensures
            r == spectrometer_mode_parse(s@),
    {
        if str_eq(s, "Average") {
            Ok(SpectrometerMode::Average)
        } else if str_eq(s, "Peak detect") {
            Ok(SpectrometerMode::PeakDetect)
        } else {
            Err(())
        }
    }

    /// Returns the text that names the value.
    pub fn to_string(&self) -> (r: String)
        ensures
            r@ == spectrometer_mode_name(*self),
    {
        match self {
            SpectrometerMode::Average => String::from_str("Average"),
            SpectrometerMode::PeakDetect => String::from_str("Peak detect"),
        }
    }
}

/// Parsing the name of a value of [`SpectrometerMode`] gives the value back, and a
/// text that parses is the name of what it parses to.
pub proof fn lemma_spectrometer_mode_roundtrip(x: SpectrometerMode, s: Seq<char>)
    ensures
        spectrometer_mode_parse(spectrometer_mode_name(x)) == Ok::<SpectrometerMode, ()>(x),
        spectrometer_mode_parse(s) matches Ok(y) ==> spectrometer_mode_name(y) == s,
{
    reveal_strlit("Average");
    reveal_strlit("Peak detect");
    assert("Average"@.len() != "Peak detect"@.len());
}

/// IQ recorder sampling mode.
#[derive(Debug, Copy, Clone, PartialEq, Eq, Hash, Structural)]
pub enum RecorderMode {
    /// 8-bit sampling mode: only the 8 MSBs of the ADC data or the DDC output are recorded.
    IQ8bit,
    /// 12-bit sampling mode: the 12 bits of the ADC data, or the 12 MSBs of the 16-bit DDC output.
    IQ12bit,
    /// 16-bit sampling mode: the 16 bits of the DDC output; 12-bit ADC data is placed on the 12 MSBs.
    IQ16bit,
}

/// The text that names each value of [`RecorderMode`].
pub open spec fn recorder_mode_name(x: RecorderMode) -> Seq<char> {
    match x {
        RecorderMode::IQ8bit => "8 bit IQ"@,
        RecorderMode::IQ12bit => "12 bit IQ"@,
        RecorderMode::IQ16bit => "16 bit IQ"@,
    }
}

/// The value of [`RecorderMode`] that a text names, if any.
pub open spec fn recorder_mode_parse(s: Seq<char>) -> Result<RecorderMode, ()> {
    if s == "8 bit IQ"@ {
        Ok(RecorderMode::IQ8bit)
    } else if s == "12 bit IQ"@ {
        Ok(RecorderMode::IQ12bit)
    } else if s == "16 bit IQ"@ {
        Ok(RecorderMode::IQ16bit)
    } else {
        Err(())
    }
}

impl RecorderMode {
    /// Parses a value from the text that names it.
    pub fn from_str(s: &str) -> (r: Result<RecorderMode, ()>)
        ensures
            r == recorder_mode_parse(s@),
    {
        if str_eq(s, "8 bit IQ") {
            Ok(RecorderMode::IQ8bit)
        } else if str_eq(s, "12 bit IQ") {
            Ok(RecorderMode::IQ12bit)
        } else if str_eq(s, "16 bit IQ") {
            Ok(RecorderMode::IQ16bit)
        } else {
            Err(())
        }
    }

    /// Returns the text that names the value.
    pub fn to_string(&self) -> (r: String)
        ensures
            r@ == recorder_mode_name(*self),
    {
        match self {
            RecorderMode::IQ8bit => String::from_str("8 bit IQ"),
            RecorderMode::IQ12bit => String::from_str("12 bit IQ"),
            RecorderMode::IQ16bit => String::from_str("16 bit IQ"),
        }
    }
}

/// Parsing the name of a value of [`RecorderMode`] gives the value back, and a
/// text that parses is the name of what it parses to.
pub proof fn lemma_recorder_mode_roundtrip(x: RecorderMode, s: Seq<char>)
    ensures
        recorder_mode_parse(recorder_mode_name(x)) == Ok::<RecorderMode, ()>(x),
        recorder_mode_parse(s) matches Ok(y) ==> recorder_mode_name(y) == s,
{
    reveal_strlit("8 bit IQ");
    reveal_strlit("12 bit IQ");
    reveal_strlit("16 bit IQ");
    assert("8 bit IQ"@.len() != "12 bit IQ"@.len());
    assert("8 bit IQ"@.len() != "16 bit IQ"@.len());
    assert("12 bit IQ"@[1] != "16 bit IQ"@[1]);
}

/// Command to change the IQ recorder state.
#[derive(Debug, Copy, Clone, PartialEq, Eq, Hash, Structural)]
pub enum RecorderStateChange {
    /// Command the IQ recorder to start recording.
    Start,
    /// Command the IQ recorder to stop recording.
    Stop,
}

/// IQ recorder state.
#[derive(Debug, Copy, Clone, PartialEq, Eq, Hash, Structural)]
pub enum RecorderState {
    /// The IQ recorder is stopped.
    Stopped,
    /// The IQ recorder is running.
    Running,
    /// The IQ recorder is stopping.
    Stopping,
}

/// Actions that a client may take to handle an error.
#[derive(Debug, Copy, Clone, PartialEq, Eq, Hash, Structural)]
pub enum ErrorAction {
    /// Show a message using the JavaScript `alert()` function.
    Alert,
    /// Log the error.
    Log,
    /// Ignore the error.
    Ignore,
}

/// Error reported to the client whenever the API returns an HTTP error code.
#[derive(Debug)]
pub struct Error {
    /// HTTP status code.
    pub http_status_code: u16,
    /// String describing the error in a human readable form.
    pub error_description: String,
    /// Suggested action to perform by the client.
    pub suggested_action: ErrorAction,
}

/// Configuration of a FIR filter in the DDC.
#[derive(Debug)]
pub struct DDCFIRConfig {
    /// FIR filter coefficients.
    pub coefficients: Vec<i32>,
    /// Decimation factor.
    pub decimation: u32,
}

/// Each AD9361 gain mode is written as its own text, and each of these texts
/// reads back as that mode: `Manual`, `Fast attack`, `Slow attack` and
/// `Hybrid`.
pub proof fn lemma_gain_mode_texts()
    ensures
        gain_mode_name(Ad9361GainMode::Manual) == "Manual"@,
        gain_mode_name(Ad9361GainMode::FastAttack) == "Fast attack"@,
        gain_mode_name(Ad9361GainMode::SlowAttack) == "Slow attack"@,
        gain_mode_name(Ad9361GainMode::Hybrid) == "Hybrid"@,
        gain_mode_parse("Manual"@) == Ok::<Ad9361GainMode, ()>(Ad9361GainMode::Manual),
        gain_mode_parse("Fast attack"@) == Ok::<Ad9361GainMode, ()>(Ad9361GainMode::FastAttack),
        gain_mode_parse("Slow attack"@) == Ok::<Ad9361GainMode, ()>(Ad9361GainMode::SlowAttack),
        gain_mode_parse("Hybrid"@) == Ok::<Ad9361GainMode, ()>(Ad9361GainMode::Hybrid),
{
    lemma_gain_mode_roundtrip(Ad9361GainMode::Manual, "Manual"@);
    lemma_gain_mode_roundtrip(Ad9361GainMode::FastAttack, "Fast attack"@);
    lemma_gain_mode_roundtrip(Ad9361GainMode::SlowAttack, "Slow attack"@);
    lemma_gain_mode_roundtrip(Ad9361GainMode::Hybrid, "Hybrid"@);
}

/// Each spectrometer input is written as its own text, and each of these
/// texts reads back as that input: `AD9361` and `DDC`.
pub proof fn lemma_spectrometer_input_texts()
    ensures
        spectrometer_input_name(SpectrometerInput::AD9361) == "AD9361"@,
        spectrometer_input_name(SpectrometerInput::DDC) == "DDC"@,
        spectrometer_input_parse("AD9361"@) == Ok::<SpectrometerInput, ()>(SpectrometerInput::AD9361),
        spectrometer_input_parse("DDC"@) == Ok::<SpectrometerInput, ()>(SpectrometerInput::DDC),
{
    lemma_spectrometer_input_roundtrip(SpectrometerInput::AD9361, "AD9361"@);
    lemma_spectrometer_input_roundtrip(SpectrometerInput::DDC, "DDC"@);
}

/// Each spectrometer mode is written as its own text, and each of these texts
/// reads back as that mode: `Average` and `Peak detect`.
pub proof fn lemma_spectrometer_mode_texts()
    ensures
        spectrometer_mode_name(SpectrometerMode::Average) == "Average"@,
        spectrometer_mode_name(SpectrometerMode::PeakDetect) == "Peak detect"@,
        spectrometer_mode_parse("Average"@) == Ok::<SpectrometerMode, ()>(SpectrometerMode::Average),
        spectrometer_mode_parse("Peak detect"@) == Ok::<SpectrometerMode, ()>(SpectrometerMode::PeakDetect),
{
    lemma_spectrometer_mode_roundtrip(SpectrometerMode::Average, "Average"@);
    lemma_spectrometer_mode_roundtrip(SpectrometerMode::PeakDetect, "Peak detect"@);
}

/// Each recorder mode is written as its own text, and each of these texts
/// reads back as that mode: `8 bit IQ`, `12 bit IQ` and `16 bit IQ`.
pub proof fn lemma_recorder_mode_texts()
    ensures
        recorder_mode_name(RecorderMode::IQ8bit) == "8 bit IQ"@,
        recorder_mode_name(RecorderMode::IQ12bit) == "12 bit IQ"@,
        recorder_mode_name(RecorderMode::IQ16bit) == "16 bit IQ"@,
        recorder_mode_parse("8 bit IQ"@) == Ok::<RecorderMode, ()>(RecorderMode::IQ8bit),
        recorder_mode_parse("12 bit IQ"@) == Ok::<RecorderMode, ()>(RecorderMode::IQ12bit),
        recorder_mode_parse("16 bit IQ"@) == Ok::<RecorderMode, ()>(RecorderMode::IQ16bit),
{
    lemma_recorder_mode_roundtrip(RecorderMode::IQ8bit, "8 bit IQ"@);
    lemma_recorder_mode_roundtrip(RecorderMode::IQ12bit, "12 bit IQ"@);
    lemma_recorder_mode_roundtrip(RecorderMode::IQ16bit, "16 bit IQ"@);
}

} // verus!

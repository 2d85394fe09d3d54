//! AD9361 IIO attribute values.

use vstd::prelude::*;
use crate::json;
use crate::text::str_eq;

verus! {

broadcast use vstd::string::group_string_axioms;

/// AD9361 gain control mode, as the IIO driver names it.
#[derive(Debug, Copy, Clone, PartialEq, Eq, Hash, Structural)]
pub struct Ad9361GainMode(pub json::Ad9361GainMode);

/// The text that the IIO driver uses for each gain control mode.
pub open spec fn iio_gain_mode_name(m: json::Ad9361GainMode) -> Seq<char> {
    match m {
        json::Ad9361GainMode::Manual => "manual"@,
        json::Ad9361GainMode::FastAttack => "fast_attack"@,
        json::Ad9361GainMode::SlowAttack => "slow_attack"@,
        json::Ad9361GainMode::Hybrid => "hybrid"@,
    }
}

/// The gain control mode that an IIO driver text names, if any.
pub open spec fn iio_gain_mode_parse(s: Seq<char>) -> Result<Ad9361GainMode, ()> {
    if s == "manual"@ {
        Ok(Ad9361GainMode(json::Ad9361GainMode::Manual))
    } else if s == "fast_attack"@ {
        Ok(Ad9361GainMode(json::Ad9361GainMode::FastAttack))
    } else if s == "slow_attack"@ {
        Ok(Ad9361GainMode(json::Ad9361GainMode::SlowAttack))
    } else if s == "hybrid"@ {
        Ok(Ad9361GainMode(json::Ad9361GainMode::Hybrid))
    } else {
        Err(())
    }
}

impl Ad9361GainMode {
    /// Parses the value of the gain control mode IIO attribute.
    pub fn from_str(s: &str) -> (r: Result<Ad9361GainMode, ()>)
        ensures
            r == iio_gain_mode_parse(s@),
    {
        if str_eq(s, "manual") {
            Ok(Ad9361GainMode(json::Ad9361GainMode::Manual))
        } else if str_eq(s, "fast_attack") {
            Ok(Ad9361GainMode(json::Ad9361GainMode::FastAttack))
        } else if str_eq(s, "slow_attack") {
            Ok(Ad9361GainMode(json::Ad9361GainMode::SlowAttack))
        } else if str_eq(s, "hybrid") {
            Ok(Ad9361GainMode(json::Ad9361GainMode::Hybrid))
        } else {
            Err(())
        }
    }

    /// Returns the value to write to the gain control mode IIO attribute.
    pub fn to_string(&self) -> (r: String)
        ensures
            r@ == iio_gain_mode_name(self.0),
    {
        match self.0 {
            json::Ad9361GainMode::Manual => String::from_str("manual"),
            json::Ad9361GainMode::FastAttack => String::from_str("fast_attack"),
            json::Ad9361GainMode::SlowAttack => String::from_str("slow_attack"),
            json::Ad9361GainMode::Hybrid => String::from_str("hybrid"),
        }
    }
}

impl From<json::Ad9361GainMode> for Ad9361GainMode {
    fn from(value: json::Ad9361GainMode) -> (r: Ad9361GainMode) {
        Ad9361GainMode(value)
    }
}

impl vstd::std_specs::convert::FromSpecImpl<json::Ad9361GainMode> for Ad9361GainMode {
    open spec fn obeys_from_spec() -> bool {
        true
    }

    open spec fn from_spec(v: json::Ad9361GainMode) -> Ad9361GainMode {
        Ad9361GainMode(v)
    }
}

impl From<Ad9361GainMode> for json::Ad9361GainMode {
    fn from(value: Ad9361GainMode) -> (r: json::Ad9361GainMode) {
        value.0
    }
}

impl vstd::std_specs::convert::FromSpecImpl<Ad9361GainMode> for json::Ad9361GainMode {
    open spec fn obeys_from_spec() -> bool {
        true
    }

    open spec fn from_spec(v: Ad9361GainMode) -> json::Ad9361GainMode {
        v.0
    }
}

/// The text of a gain attribute without its ` dB` unit suffix, if it has one.
pub open spec fn spec_strip_db_suffix(s: Seq<char>) -> Option<Seq<char>> {
    if s.len() >= 3 && s.skip(s.len() - 3) == " dB"@ {
        Some(s.take(s.len() - 3))
    } else {
        None
    }
}

/// Removes the ` dB` unit suffix from the value of a gain IIO attribute, such
/// as `71.000000 dB`, leaving the number; gives `None` when the value does not
/// end with ` dB`.
pub fn strip_db_suffix(s: &str) -> (r: Option<&str>)
    ensures
        r matches Some(t) ==> spec_strip_db_suffix(s@) == Some(t@),
        r is None <==> spec_strip_db_suffix(s@) is None,
{
    proof {
        reveal_strlit(" dB");
    }
    let len = s.unicode_len();
    if len < 3 {
        return None;
    }
    if s.get_char(len - 3) == ' ' && s.get_char(len - 2) == 'd' && s.get_char(len - 1) == 'B' {
        assert(s@.skip(len - 3) =~= " dB"@);
        let t = s.substring_char(0, len - 3);
        assert(t@ =~= s@.take(len - 3));
        Some(t)
    } else {
        assert(s@.skip(len - 3)[0] == s@[len - 3]);
        assert(s@.skip(len - 3)[1] == s@[len - 2]);
        assert(s@.skip(len - 3)[2] == s@[len - 1]);
        None
    }
}

/// Reading back the gain control mode written to the IIO attribute gives the
/// same mode, and a text that parses is the name of what it parses to.
pub proof fn lemma_iio_gain_mode_roundtrip(m: json::Ad9361GainMode, s: Seq<char>)
    ensures
        iio_gain_mode_parse(iio_gain_mode_name(m)) == Ok::<Ad9361GainMode, ()>(Ad9361GainMode(m)),
        iio_gain_mode_parse(s) matches Ok(g) ==> iio_gain_mode_name(g.0) == s,
{
    reveal_strlit("manual");
    reveal_strlit("fast_attack");
    reveal_strlit("slow_attack");
    reveal_strlit("hybrid");
    assert("manual"@.len() != "fast_attack"@.len());
    assert("manual"@.len() != "slow_attack"@.len());
    assert("manual"@[0] != "hybrid"@[0]);
    assert("fast_attack"@[0] != "slow_attack"@[0]);
    assert("fast_attack"@.len() != "hybrid"@.len());
    assert("slow_attack"@.len() != "hybrid"@.len());
}

/// Each gain control mode is written to the IIO driver as its own text, and
/// each of these texts reads back as that mode: `manual`, `fast_attack`,
/// `slow_attack` and `hybrid`.
pub proof fn lemma_iio_gain_mode_texts()
    ensures
        iio_gain_mode_name(json::Ad9361GainMode::Manual) == "manual"@,
        iio_gain_mode_name(json::Ad9361GainMode::FastAttack) == "fast_attack"@,
        iio_gain_mode_name(json::Ad9361GainMode::SlowAttack) == "slow_attack"@,
        iio_gain_mode_name(json::Ad9361GainMode::Hybrid) == "hybrid"@,
        iio_gain_mode_parse("manual"@) == Ok::<Ad9361GainMode, ()>(Ad9361GainMode(json::Ad9361GainMode::Manual)),
        iio_gain_mode_parse("fast_attack"@) == Ok::<Ad9361GainMode, ()>(Ad9361GainMode(json::Ad9361GainMode::FastAttack)),
        iio_gain_mode_parse("slow_attack"@) == Ok::<Ad9361GainMode, ()>(Ad9361GainMode(json::Ad9361GainMode::SlowAttack)),
        iio_gain_mode_parse("hybrid"@) == Ok::<Ad9361GainMode, ()>(Ad9361GainMode(json::Ad9361GainMode::Hybrid)),
{
    lemma_iio_gain_mode_roundtrip(json::Ad9361GainMode::Manual, "manual"@);
    lemma_iio_gain_mode_roundtrip(json::Ad9361GainMode::FastAttack, "fast_attack"@);
    lemma_iio_gain_mode_roundtrip(json::Ad9361GainMode::SlowAttack, "slow_attack"@);
    lemma_iio_gain_mode_roundtrip(json::Ad9361GainMode::Hybrid, "hybrid"@);
}

} // verus!

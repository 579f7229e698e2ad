//! Atmospheric conditions at the observing site.
//!
//! Carried through the model for reporting; the engine applies no
//! refraction correction beyond the fixed horizon-depression angles.

use vstd::prelude::*;
use crate::text::push_i64;
use crate::text::spec_int_str;
use vstd::string::StringExecFns;

verus! {

/// Temperature (Celsius), relative humidity (percent) and pressure
/// (millibar) at the site.
#[derive(Debug, Clone, PartialEq, Eq, Structural)]
pub struct Environment {
    pub temperature: i64,
    pub humidity: i64,
    pub pressure: i64,
}

pub fn default_temperature() -> (r: i64)
    ensures
        r == 20,
{
    20
}

pub fn default_humidity() -> (r: i64)
    ensures
        r == 50,
{
    50
}

pub fn default_pressure() -> (r: i64)
    ensures
        r == 1010,
{
    1010
}

/// The one-line report text of an environment record.
pub open spec fn spec_environment_text(e: Environment) -> Seq<char> {
    "temperature: "@ + spec_int_str(e.temperature as int) + " C, humidity: "@ + spec_int_str(
        e.humidity as int,
    ) + " %, pressure: "@ + spec_int_str(e.pressure as int) + " mbar"@
}

impl Default for Environment {
    /// Environment populated with the configuration defaults.
    fn default() -> (r: Environment)
        ensures
            r.temperature == 20,
            r.humidity == 50,
            r.pressure == 1010,
    {
        Environment {
            temperature: default_temperature(),
            humidity: default_humidity(),
            pressure: default_pressure(),
        }
    }
}

impl Environment {
    /// Builder that replaces every field at once.
    pub fn new(self, pressure: i64, temperature: i64, humidity: i64) -> (r: Environment)
        ensures
            r == (Environment { temperature, humidity, pressure }),
    {
        Environment { temperature, humidity, pressure }
    }

    /// Report line for this environment, e.g.
    /// `temperature: 20 C, humidity: 50 %, pressure: 1010 mbar`.
    pub fn to_text(&self) -> (r: String)
        ensures
            r@ == spec_environment_text(*self),
    {
        let mut s = String::new();
        s.append("temperature: ");
        push_i64(&mut s, self.temperature);
        s.append(" C, humidity: ");
        push_i64(&mut s, self.humidity);
        s.append(" %, pressure: ");
        push_i64(&mut s, self.pressure);
        s.append(" mbar");
        assert(s@ =~= spec_environment_text(*self));
        s
    }
}

} // verus!

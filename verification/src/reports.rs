//! Fixed text blocks of the nightly report.
//!
//! The floating-point shell assembles the full report; the blocks whose
//! text is exactly determined by their inputs are built and pinned down
//! here.

use vstd::prelude::*;
use crate::environment::Environment;
use crate::environment::spec_environment_text;
use vstd::string::StringExecFns;

verus! {

/// Version string printed in the report banner.
pub const VERSION: &'static str = "0.1.0";

/// Horizontal rule of the report banner.
pub const RULER: &'static str = "\n------------------------------------------------------------------------------------------";

/// Report banner: ruler, title line with the version, ruler, blank line.
pub fn header_section() -> (r: Vec<String>)
    ensures
        r@.len() == 4,
        r@[0]@ == RULER@,
        r@[1]@ == "\nSkyCalc v."@ + VERSION@,
        r@[2]@ == RULER@,
        r@[3]@ == "\n\n"@,
{
    let mut header: Vec<String> = Vec::new();
    header.push(RULER.to_owned());
    let mut title = String::new();
    title.append("\nSkyCalc v.");
    title.append(VERSION);
    assert(title@ =~= "\nSkyCalc v."@ + VERSION@);
    header.push(title);
    header.push(RULER.to_owned());
    header.push("\n\n".to_owned());
    header
}

/// Environment block of the report: indentation, the environment line,
/// and a closing blank line.
pub fn environment_section(environment: &Environment) -> (r: Vec<String>)
    ensures
        r@.len() == 3,
        r@[0]@ == "\n   - "@,
        r@[1]@ == spec_environment_text(*environment),
        r@[2]@ == "\n\n"@,
{
    let mut env: Vec<String> = Vec::new();
    env.push("\n   - ".to_owned());
    env.push(environment.to_text());
    env.push("\n\n".to_owned());
    env
}

} // verus!

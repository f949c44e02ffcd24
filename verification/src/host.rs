//! The two values the library takes from the machine it runs on: the current
//! local time, for the default package directory name, and the OS
//! configuration directory, where the global configuration file lives. Both
//! come from outside crates through trusted wrappers; everything computed
//! from them is verified.

use vstd::prelude::*;
use vstd::string::StringSliceAdditionalSpecFns;

use crate::engine::{path_join, spec_path_join};
use crate::text::str_bytes;

verus! {

/// Relies on chrono's `Local::now` and `DateTime::format`: the current local
/// time rendered as `%Y%m%d-%H%M%S`. The result depends on the clock, so
/// nothing is promised of it; every caller treats it as an arbitrary
/// directory name component.
#[verifier::external_body]
pub fn local_timestamp_compact() -> (r: Vec<u8>) {
    chrono::Local::now().format("%Y%m%d-%H%M%S").to_string().into_bytes()
}

/// Relies on dirs::config_dir: the platform's configuration directory, when
/// the platform defines one. The result depends on the environment, so
/// nothing is promised of it beyond its presence or absence.
#[verifier::external_body]
fn os_config_dir() -> (r: Option<Vec<u8>>) {
    dirs::config_dir().map(|p| p.to_string_lossy().into_owned().into_bytes())
}

/// Where the global configuration file lives: `gph/config.toml` under the
/// platform's configuration directory, or nothing on a platform without one.
pub fn global_config_path() -> (r: Option<Vec<u8>>)
    ensures
        r matches Some(p) ==> exists|base: Seq<u8>|
            p@ == #[trigger] spec_path_join(base, "gph/config.toml".spec_bytes()),
{
    match os_config_dir() {
        None => None,
        Some(base) => {
            let file = str_bytes("gph/config.toml");
            let p = path_join(&base, &file);
            proof {
                assert(p@ == spec_path_join(base@, "gph/config.toml".spec_bytes()));
            }
            Some(p)
        },
    }
}

} // verus!

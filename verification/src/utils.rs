//! The deployment stage and its textual form.

use vstd::prelude::*;

verus! {

/// Which environment the gateway runs in; it only steers how verbosely
/// the process logs.
pub enum Stage {
    Development,
    Production,
}

impl Stage {
    /// The stage a configuration value names, if any: exactly
    /// `development` or `production`, anything else being unsupported.
    pub fn from_name(name: &str) -> (r: Option<Stage>)
        ensures
            name@ == "development"@ ==> r == Some(Stage::Development),
            name@ == "production"@ ==> r == Some(Stage::Production),
            name@ != "development"@ && name@ != "production"@ ==> r is None,
    {
        proof {
            reveal_strlit("development");
            reveal_strlit("production");
            assert("development"@.len() == 11);
            assert("production"@.len() == 10);
        }
        let n = name.to_owned();
        let development: String = "development".to_owned();
        let production: String = "production".to_owned();
        if n == development {
            Some(Stage::Development)
        } else if n == production {
            Some(Stage::Production)
        } else {
            None
        }
    }
}

} // verus!

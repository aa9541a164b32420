//! Chain configuration alternatives selectable by name on the command
//! line.

use vstd::prelude::*;

verus! {

/// The chain specification option, convertible from a `--chain` string.
#[derive(Clone, Copy, Debug, PartialEq, Eq, Structural)]
pub enum Alternative {
    /// Whatever the current runtime is, with just Alice as an auth.
    Development,
    /// Whatever the current runtime is, with simple Alice/Bob auths.
    LocalTestnet,
}

impl Alternative {
    /// Select an alternative by name: `dev` is the development chain, the
    /// empty string and `local` are the local testnet, anything else is
    /// unknown.
    pub fn from(s: &str) -> (r: Option<Alternative>)
        ensures
            s@ == "dev"@ ==> r == Some(Alternative::Development),
            s@ == ""@ || s@ == "local"@ ==> r == Some(Alternative::LocalTestnet),
            s@ != "dev"@ && s@ != ""@ && s@ != "local"@ ==> r is None,
    {
        proof {
            reveal_strlit("dev");
            reveal_strlit("");
            reveal_strlit("local");
        }
        let owned = s.to_owned();
        if owned == "dev".to_owned() {
            proof {
                // the three names differ already in length
                assert("dev"@.len() == 3 && ""@.len() == 0 && "local"@.len() == 5);
                assert(s@ != ""@);
                assert(s@ != "local"@);
            }
            Some(Alternative::Development)
        } else if s.is_empty() || owned == "local".to_owned() {
            proof {
                if s@.len() == 0 {
                    assert(s@ =~= ""@);
                }
            }
            Some(Alternative::LocalTestnet)
        } else {
            proof {
                assert(""@.len() == 0);
            }
            None
        }
    }
}

} // verus!

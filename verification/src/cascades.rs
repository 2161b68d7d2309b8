//! How many shadow cascades the directional lights get.
//!
//! The count is read once at launch and never changed while the app runs:
//! changing it live desynchronises the renderer's per-cascade bookkeeping. A
//! value outside the supported range is refused, loudly, for the default.

use vstd::prelude::*;

verus! {

/// The cascade count when none, or an unusable one, is configured.
pub const DEFAULT_CASCADES: usize = 4;

/// The largest supported cascade count.
pub const MAX_CASCADES: usize = 4;

/// The cascade count decided from the configured value.
#[derive(Clone, Copy, PartialEq, Eq, Debug, Structural)]
pub struct CascadeChoice {
    /// The count to configure.
    pub count: usize,
    /// A configured count that was refused, to be reported.
    pub refused: Option<usize>,
}

/// Decide the cascade count from the configured value, if one parsed: a count
/// from one to four is taken as it is; any other number is refused for the
/// default; nothing configured means the default, silently.
pub fn cascade_choice(configured: Option<usize>) -> (choice: CascadeChoice)
    ensures
        choice == (match configured {
            Some(count) => if 1 <= count <= MAX_CASCADES {
                CascadeChoice { count, refused: None }
            } else {
                CascadeChoice { count: DEFAULT_CASCADES, refused: Some(count) }
            },
            None => CascadeChoice { count: DEFAULT_CASCADES, refused: None },
        }),
        1 <= choice.count <= MAX_CASCADES,
{
    match configured {
        Some(count) => if 1 <= count && count <= MAX_CASCADES {
            CascadeChoice { count, refused: None }
        } else {
            CascadeChoice { count: DEFAULT_CASCADES, refused: Some(count) }
        },
        None => CascadeChoice { count: DEFAULT_CASCADES, refused: None },
    }
}

} // verus!

//! Start-up decisions of the command-line feed and the desktop terminal.

use vstd::prelude::*;

verus! {

/// The CPU core the executor is pinned to: the third one, which leaves the
/// first two to interrupts and the scheduler, or else the last one.
pub fn pick_core<T: Copy>(cores: &Vec<T>) -> (r: Option<T>)
    ensures
        r == if cores@.len() > 2 {
            Some(cores@[2])
        } else if cores@.len() > 0 {
            Some(cores@.last())
        } else {
            None::<T>
        },
{
    if cores.len() > 2 {
        Some(cores[2])
    } else if cores.len() > 0 {
        Some(cores[cores.len() - 1])
    } else {
        None
    }
}

/// What the desktop terminal does once it has read its saved settings.
pub enum AutoStart {
    /// Offer to reconnect with the saved symbol and timeframe.
    Pending { symbol: String, timeframe: String },
    /// No key was saved: open the settings.
    ShowSettings,
}

/// With a saved key, reconnect with the saved symbol ("XAU/USD" if none)
/// and timeframe ("M1" if none); without one, show the settings.
pub fn auto_start(has_api_key: Option<bool>, symbol: Option<String>, timeframe: Option<String>) -> (r:
    AutoStart)
    ensures
        match r {
            AutoStart::Pending { symbol: s, timeframe: t } => has_api_key == Some(true) && s@ == match symbol {
                Some(x) => x@,
                None => "XAU/USD"@,
            } && t@ == match timeframe {
                Some(x) => x@,
                None => "M1"@,
            },
            AutoStart::ShowSettings => has_api_key != Some(true),
        },
{
    let has_key = match has_api_key {
        Some(b) => b,
        None => false,
    };
    if has_key {
        let s = match symbol {
            Some(x) => x,
            None => "XAU/USD".to_owned(),
        };
        let t = match timeframe {
            Some(x) => x,
            None => "M1".to_owned(),
        };
        AutoStart::Pending { symbol: s, timeframe: t }
    } else {
        AutoStart::ShowSettings
    }
}

} // verus!

//! Override-line construction and the bootstrap plan for the overlay file.
//!
//! The overlay file is layered over the base configuration by a `source`
//! directive appended once at the end of the base file; these functions
//! compute the exact text of that wiring and of each override line, while
//! the caller performs the reads and writes.

use vstd::prelude::*;

use crate::SettingError;
use crate::monitor::MonitorInfo;
use crate::monitor::MonitorMode;
use crate::numfmt::refresh_to_dec;
use crate::numfmt::spec_idec;
use crate::numfmt::spec_refresh;
use crate::numfmt::i64_to_dec;
use crate::setting_writer::HYPR_OVERRIDES_PATH;
use vstd::string::StringExecFns;

verus! {

/// Generate a monitor override line: the display keeps its automatic
/// position.
pub fn monitor_override(monitor_name: String, settings: MonitorMode) -> (r: String)
    ensures
        r@ == "monitor="@ + monitor_name@ + ","@ + settings.resolution@ + "@"@ + spec_refresh(
            settings.refresh_mhz as nat,
        ) + ",auto,1"@,
{
    let mut line = String::new();
    line.append("monitor=");
    line.append(monitor_name.as_str());
    line.append(",");
    line.append(settings.resolution.as_str());
    line.append("@");
    let refresh = refresh_to_dec(settings.refresh_mhz);
    line.append(refresh.as_str());
    line.append(",auto,1");
    proof {
        assert(line@ =~= "monitor="@ + monitor_name@ + ","@ + settings.resolution@ + "@"@
            + spec_refresh(settings.refresh_mhz as nat) + ",auto,1"@);
    }
    line
}

/// The value of a display-mode setting at an explicit position:
/// `<name>,<width>x<height>@<refresh>,<x>x<y>,1`. Prefixing it with
/// `monitor=` gives the full override line.
pub fn monitor_setting_value(m: &MonitorInfo) -> (r: String)
    ensures
        r@ == m.name@ + ","@ + m.current_resolution@ + "@"@ + spec_refresh(
            m.current_refresh_mhz as nat,
        ) + ","@ + spec_idec(m.position.0 as int) + "x"@ + spec_idec(m.position.1 as int) + ",1"@,
{
    let mut line = String::new();
    line.append(m.name.as_str());
    line.append(",");
    line.append(m.current_resolution.as_str());
    line.append("@");
    let refresh = refresh_to_dec(m.current_refresh_mhz);
    line.append(refresh.as_str());
    line.append(",");
    let x = i64_to_dec(m.position.0 as i64);
    line.append(x.as_str());
    line.append("x");
    let y = i64_to_dec(m.position.1 as i64);
    line.append(y.as_str());
    line.append(",1");
    proof {
        assert(line@ =~= m.name@ + ","@ + m.current_resolution@ + "@"@ + spec_refresh(
            m.current_refresh_mhz as nat,
        ) + ","@ + spec_idec(m.position.0 as int) + "x"@ + spec_idec(m.position.1 as int) + ",1"@);
    }
    line
}

/// What the bootstrap has to write, decided from what exists on disk.
pub enum BootstrapAction {
    /// Base and overlay both exist already: write nothing.
    Nothing,
    /// The overlay is missing: create it with the header comment, and
    /// append the source directive to the base file.
    CreateOverlay { overlay_contents: String, base_append: String },
}

/// Decides the bootstrap of the overlay file. The base configuration file
/// must exist — its absence means the host system is absent or
/// unconfigured. If the overlay file does not exist, it is created with a
/// single header comment line, and the base file gains a directive that
/// sources the overlay by an absolute-from-home path; guarding on the
/// overlay's absence makes this idempotent by construction.
pub fn create_overrides_plan(base_exists: bool, overlay_exists: bool) -> (r: Result<
    BootstrapAction,
    SettingError,
>)
    ensures
        !base_exists ==> (r matches Err(e) && e == SettingError::NotConfigured),
        base_exists && overlay_exists ==> (r matches Ok(a) && a is Nothing),
        base_exists && !overlay_exists ==> (r matches Ok(a) && (a matches
            BootstrapAction::CreateOverlay { overlay_contents, base_append } && overlay_contents@
            == "# Hyprland configuration overrides\n"@ && base_append@
            == "\n# Include overrides configuration\nsource = ~/"@ + HYPR_OVERRIDES_PATH@
            + "\n"@)),
{
    if !base_exists {
        return Err(SettingError::NotConfigured);
    }
    if overlay_exists {
        return Ok(BootstrapAction::Nothing);
    }
    let overlay_contents = "# Hyprland configuration overrides\n".to_owned();
    let mut base_append = String::new();
    base_append.append("\n# Include overrides configuration\nsource = ~/");
    base_append.append(HYPR_OVERRIDES_PATH);
    base_append.append("\n");
    proof {
        assert(base_append@ =~= "\n# Include overrides configuration\nsource = ~/"@
            + HYPR_OVERRIDES_PATH@ + "\n"@);
    }
    Ok(BootstrapAction::CreateOverlay { overlay_contents, base_append })
}

} // verus!

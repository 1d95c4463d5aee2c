//! The tray app's state and decisions: the red-filter menu item and hotkey
//! toggle, the "Turn on at launch" and "Start with Windows" options, and the
//! tray tooltip.
//!
//! The program owns the tray icon, the menu and the Windows calls; on each
//! event it asks this module what to do and reports outcomes back.

use vstd::prelude::*;
use crate::config::Config;
use crate::filter::{RedFilter, FilterView, after_set};

verus! {

/// The tray tooltip for a filter state: "RedLight — ON  (Alt+F11)" or
/// "RedLight — OFF  (Alt+F11)".
pub open spec fn tray_tip_text(on: bool) -> Seq<char> {
    "RedLight — "@ + (if on {
        "ON"@
    } else {
        "OFF"@
    }) + "  (Alt+F11)"@
}

/// Builds the tray tooltip for a filter state.
pub fn tray_tip(on: bool) -> (tip: String)
    ensures
        tip@ == tray_tip_text(on),
{
    let state = if on {
        "ON"
    } else {
        "OFF"
    };
    String::from_str("RedLight — ").concat(state).concat("  (Alt+F11)")
}

/// The two tooltips, spelled out.
pub proof fn lemma_tray_tip_texts()
    ensures
        tray_tip_text(true) == "RedLight — ON  (Alt+F11)"@,
        tray_tip_text(false) == "RedLight — OFF  (Alt+F11)"@,
        tray_tip_text(true) != tray_tip_text(false),
{
    reveal_strlit("RedLight — ");
    reveal_strlit("ON");
    reveal_strlit("OFF");
    reveal_strlit("  (Alt+F11)");
    reveal_strlit("RedLight — ON  (Alt+F11)");
    reveal_strlit("RedLight — OFF  (Alt+F11)");
    assert(tray_tip_text(true) =~= "RedLight — ON  (Alt+F11)"@);
    assert(tray_tip_text(false) =~= "RedLight — OFF  (Alt+F11)"@);
    assert(tray_tip_text(true)[12] != tray_tip_text(false)[12]);
}

/// The app's state: the filter, the settings, and the check marks of the
/// "Red filter", "Turn on at launch" and "Start with Windows" menu items.
pub struct App {
    pub filter: RedFilter,
    pub config: Config,
    pub filter_checked: bool,
    pub auto_checked: bool,
    pub boot_checked: bool,
}

impl App {
    /// The option menu items show the settings.
    pub open spec fn menu_mirrors_config(&self) -> bool {
        &&& self.auto_checked == self.config.auto_on_start
        &&& self.boot_checked == self.config.start_on_boot
    }

    /// The app at start-up, given the loaded settings, whether the registry
    /// has the app registered to start with Windows (which overrides the
    /// stored flag), and the filter as initialised. The option items are
    /// checked as the settings say; the filter item starts unchecked.
    pub fn new(config: Config, boot_registered: bool, filter: RedFilter) -> (app: App)
        ensures
            app.config == (Config {
                auto_on_start: config.auto_on_start,
                start_on_boot: boot_registered,
            }),
            app.filter@ == filter@,
            !app.filter_checked,
            app.menu_mirrors_config(),
    {
        let config = Config { auto_on_start: config.auto_on_start, start_on_boot: boot_registered };
        App {
            filter,
            config,
            filter_checked: false,
            auto_checked: config.auto_on_start,
            boot_checked: config.start_on_boot,
        }
    }

    /// The filter state requested at launch: on exactly when "Turn on at
    /// launch" is set.
    pub fn launch_filter_state(&self) -> (on: bool)
        ensures
            on == self.config.auto_on_start,
    {
        self.config.auto_on_start
    }

    /// Applies a filter state: records whether the API accepted the effect
    /// that `self.filter.effect_for(on)` requested, checks the "Red filter"
    /// item as requested (whatever the API answered), and returns the new
    /// tooltip.
    pub fn set_filter(&mut self, on: bool, applied: bool) -> (tip: String)
        ensures
            final(self).filter@ == after_set(old(self).filter@, on, applied),
            final(self).filter_checked == on,
            final(self).config == old(self).config,
            final(self).auto_checked == old(self).auto_checked,
            final(self).boot_checked == old(self).boot_checked,
            old(self).menu_mirrors_config() ==> final(self).menu_mirrors_config(),
            tip@ == tray_tip_text(on),
    {
        self.filter.set(on, applied);
        self.filter_checked = on;
        tray_tip(on)
    }

    /// The filter state a toggle (menu item or Alt+F11) requests: the
    /// opposite of the current one.
    pub fn toggle_target(&self) -> (on: bool)
        ensures
            on == !self.filter@.active,
    {
        !self.filter.is_active()
    }

    /// "Turn on at launch" was selected: flips the setting and its check
    /// mark, and returns the settings to save.
    pub fn toggle_auto(&mut self) -> (to_save: Config)
        ensures
            final(self).config == (Config {
                auto_on_start: !old(self).config.auto_on_start,
                start_on_boot: old(self).config.start_on_boot,
            }),
            to_save == final(self).config,
            final(self).auto_checked == final(self).config.auto_on_start,
            final(self).boot_checked == old(self).boot_checked,
            old(self).menu_mirrors_config() ==> final(self).menu_mirrors_config(),
            final(self).filter@ == old(self).filter@,
            final(self).filter_checked == old(self).filter_checked,
    {
        let v = !self.config.auto_on_start;
        self.config.auto_on_start = v;
        self.auto_checked = v;
        self.config
    }

    /// "Start with Windows" was selected: the registration to write to the
    /// registry, the opposite of the current setting.
    pub fn boot_target(&self) -> (enable: bool)
        ensures
            enable == !self.config.start_on_boot,
    {
        !self.config.start_on_boot
    }

    /// Records the outcome of writing the registration `enable` to the
    /// registry: on success the setting and its check mark follow and the
    /// settings to save are returned; on failure nothing changes.
    pub fn boot_result(&mut self, enable: bool, written: bool) -> (to_save: Option<Config>)
        ensures
            final(self).config == (if written {
                Config { auto_on_start: old(self).config.auto_on_start, start_on_boot: enable }
            } else {
                old(self).config
            }),
            to_save == (if written {
                Some(final(self).config)
            } else {
                None
            }),
            final(self).boot_checked == (if written {
                enable
            } else {
                old(self).boot_checked
            }),
            final(self).auto_checked == old(self).auto_checked,
            old(self).menu_mirrors_config() ==> final(self).menu_mirrors_config(),
            final(self).filter@ == old(self).filter@,
            final(self).filter_checked == old(self).filter_checked,
    {
        if written {
            self.config.start_on_boot = enable;
            self.boot_checked = enable;
            Some(self.config)
        } else {
            None
        }
    }
}

/// Toggling twice, with both effects applied, brings the filter back to
/// where it was.
pub proof fn lemma_toggle_twice_restores(v: FilterView)
    requires
        v.initialized,
    ensures
        after_set(after_set(v, !v.active, true), !after_set(v, !v.active, true).active, true)
            == v,
{
}

/// A toggle whose effect was applied flips the filter.
pub proof fn lemma_toggle_flips(v: FilterView)
    requires
        v.initialized,
    ensures
        after_set(v, !v.active, true).active == !v.active,
{
}

} // verus!

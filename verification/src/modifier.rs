//! Settings that travel with commands and effects: whether the view is updated and
//! whether measurements are logged.
use vstd::prelude::*;

verus! {

/// Settings of a command: whether the program updates the view after it, and whether
/// it logs measurements and under which name.
pub struct Modifier {
    /// whether the program updates the view
    pub should_update_view: bool,
    /// whether the program logs the measurements of the update
    pub log_measurements: bool,
    /// the name under which the measurements are logged
    pub measurement_name: String,
}

/// The model of a [`Modifier`].
pub struct ModifierV {
    pub should_update_view: bool,
    pub log_measurements: bool,
    pub measurement_name: Seq<char>,
}

impl View for Modifier {
    type V = ModifierV;

    open spec fn view(&self) -> ModifierV {
        ModifierV {
            should_update_view: self.should_update_view,
            log_measurements: self.log_measurements,
            measurement_name: self.measurement_name@,
        }
    }
}

/// The default settings: the view is updated, nothing is measured, no name.
pub open spec fn default_modifier() -> ModifierV {
    ModifierV { should_update_view: true, log_measurements: false, measurement_name: Seq::empty() }
}

/// Settings after taking in `other`: a flag set in either stays set, and a name
/// given in `other` replaces this one.
pub open spec fn coalesced(this: ModifierV, other: ModifierV) -> ModifierV {
    ModifierV {
        should_update_view: this.should_update_view || other.should_update_view,
        log_measurements: this.log_measurements || other.log_measurements,
        measurement_name: if other.measurement_name.len() > 0 {
            other.measurement_name
        } else {
            this.measurement_name
        },
    }
}

impl Default for Modifier {
    fn default() -> (r: Self)
        ensures
            r@ == default_modifier(),
    {
        Modifier { should_update_view: true, log_measurements: false, measurement_name: String::new() }
    }
}

impl Modifier {
    /// Takes in the settings that `other` sets.
    pub fn coalesce(&mut self, other: &Self)
        ensures
            final(self)@ == coalesced(old(self)@, other@),
    {
        if other.should_update_view {
            self.should_update_view = true;
        }
        if other.log_measurements {
            self.log_measurements = true;
        }
        if other.measurement_name.as_str().unicode_len() > 0 {
            self.measurement_name = other.measurement_name.clone();
        }
    }

    /// A copy of these settings.
    pub fn duplicate(&self) -> (r: Self)
        ensures
            r@ == self@,
    {
        Modifier {
            should_update_view: self.should_update_view,
            log_measurements: self.log_measurements,
            measurement_name: self.measurement_name.clone(),
        }
    }
}

} // verus!

use vstd::prelude::*;

verus! {

/// The settings that the application reads.
#[derive(Debug, Clone)]
pub enum ConfigKey {
    QuitOnClose,
    AutoUpdateHostsEnabled,
    AutoUpdateHostsInterval,
    DisableTelemetry,
}

impl ConfigKey {
    /// The name under which the setting is stored.
    pub open spec fn name(self) -> Seq<char> {
        match self {
            ConfigKey::QuitOnClose => "quitOnClose"@,
            ConfigKey::AutoUpdateHostsEnabled => "autoUpdateHostsEnabled"@,
            ConfigKey::AutoUpdateHostsInterval => "autoUpdateHostsInterval"@,
            ConfigKey::DisableTelemetry => "disableTelemetry"@,
        }
    }

    /// The name under which the setting is stored.
    pub fn as_str(&self) -> (r: &'static str)
        ensures
            r@ == self.name(),
    {
        match self {
            ConfigKey::QuitOnClose => "quitOnClose",
            ConfigKey::AutoUpdateHostsEnabled => "autoUpdateHostsEnabled",
            ConfigKey::AutoUpdateHostsInterval => "autoUpdateHostsInterval",
            ConfigKey::DisableTelemetry => "disableTelemetry",
        }
    }

    /// No two settings are stored under one name.
    pub proof fn lemma_names_differ(a: ConfigKey, b: ConfigKey)
        requires
            a.name() == b.name(),
        ensures
            a == b,
    {
        reveal_strlit("quitOnClose");
        reveal_strlit("autoUpdateHostsEnabled");
        reveal_strlit("autoUpdateHostsInterval");
        reveal_strlit("disableTelemetry");
        assert("quitOnClose"@.len() == 11);
        assert("autoUpdateHostsEnabled"@.len() == 22);
        assert("autoUpdateHostsInterval"@.len() == 23);
        assert("disableTelemetry"@.len() == 16);
    }
}

} // verus!

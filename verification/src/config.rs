//! Station configuration.
//!
//! Every tunable of the firmware is passed explicitly through this
//! struct: the Wi-Fi credentials, the weather-service key and location,
//! and the panel dimensions. No hidden global state exists.
use vstd::prelude::*;

verus! {

/// Explicit configuration of the weather station.
#[derive(Clone, Copy, Debug)]
pub struct Config {
    pub wifi_ssid: &'static str,
    pub wifi_psk: &'static str,
    pub qweather_key: &'static str,
    pub location: &'static str,
    pub screen_width: usize,
    pub screen_height: usize,
    pub city: &'static str,
}

impl Default for Config {
    /// Empty credentials and the 400 x 300 panel the station ships
    /// with.
    fn default() -> (r: Config)
        ensures
            r.wifi_ssid@ == Seq::<char>::empty(),
            r.wifi_psk@ == Seq::<char>::empty(),
            r.qweather_key@ == Seq::<char>::empty(),
            r.location@ == Seq::<char>::empty(),
            r.screen_width == 400,
            r.screen_height == 300,
            r.city@ == Seq::<char>::empty(),
    {
        proof {
            reveal_strlit("");
            assert(""@ =~= Seq::<char>::empty());
        }
        Config {
            wifi_ssid: "",
            wifi_psk: "",
            qweather_key: "",
            location: "",
            screen_width: 400,
            screen_height: 300,
            city: "",
        }
    }
}

} // verus!

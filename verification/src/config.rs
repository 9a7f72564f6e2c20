//! The desktop app's settings: OSC ports and feedback destinations, channel
//! synchronization, logging, and their defaults.

use vstd::prelude::*;
use vstd::string::*;
use crate::adapters::Platform;
use crate::text::{decimal, push_char, push_str, str_eq, to_owned_string, u64_to_decimal};

verus! {

// ---------------------------------------------------------------------------
// Feedback destinations
// ---------------------------------------------------------------------------

/// A feedback destination (host:port).
#[derive(Debug)]
pub struct FeedbackDestination {
    pub host: String,
    pub port: u16,
}

/// A destination as values.
pub open spec fn dest_view(d: FeedbackDestination) -> (Seq<char>, u16) {
    (d.host@, d.port)
}

/// The destinations of a list, as values.
pub open spec fn dest_views(v: Seq<FeedbackDestination>) -> Seq<(Seq<char>, u16)> {
    v.map_values(|d: FeedbackDestination| dest_view(d))
}

impl FeedbackDestination {
    pub fn new(host: String, port: u16) -> (r: Self)
        ensures
            r.host == host,
            r.port == port,
    {
        FeedbackDestination { host, port }
    }

    /// The socket address text `host:port`.
    pub fn to_addr_string(&self) -> (r: String)
        ensures
            r@ == self.host@ + seq![':'] + decimal(self.port as nat),
    {
        let mut r = to_owned_string(self.host.as_str());
        push_char(&mut r, ':');
        let p = u64_to_decimal(self.port as u64);
        push_str(&mut r, p.as_str());
        r
    }

    /// A copy of the destination.
    pub fn copy(&self) -> (r: Self)
        ensures
            dest_view(r) == dest_view(*self),
    {
        FeedbackDestination { host: self.host.clone(), port: self.port }
    }

    /// Same host and port.
    pub fn same_as(&self, other: &FeedbackDestination) -> (r: bool)
        ensures
            r == (dest_view(*self) == dest_view(*other)),
    {
        self.port == other.port && str_eq(self.host.as_str(), other.host.as_str())
    }
}

// ---------------------------------------------------------------------------
// OSC settings
// ---------------------------------------------------------------------------

#[derive(Debug)]
pub struct OscConfig {
    pub receive_port: u16,
    /// Legacy single feedback port.
    pub feedback_port: u16,
    /// Legacy single feedback host.
    pub feedback_host: String,
    pub host: String,
    /// Feedback destinations besides the legacy one.
    pub feedback_destinations: Vec<FeedbackDestination>,
}

/// All destinations: the configured ones, with the legacy `host:port` put
/// first when it is not among them.
pub open spec fn all_destinations(c: OscConfig) -> Seq<(Seq<char>, u16)> {
    let legacy = (c.feedback_host@, c.feedback_port);
    let list = dest_views(c.feedback_destinations@);
    if list.contains(legacy) {
        list
    } else {
        seq![legacy] + list
    }
}

impl OscConfig {
    /// All feedback destinations, including the legacy single one.
    pub fn get_all_destinations(&self) -> (r: Vec<FeedbackDestination>)
        ensures
            dest_views(r@) == all_destinations(*self),
    {
        let legacy = FeedbackDestination::new(self.feedback_host.clone(), self.feedback_port);
        let mut out: Vec<FeedbackDestination> = Vec::new();
        let mut found = false;
        let mut i: usize = 0;
        let ghost list = dest_views(self.feedback_destinations@);
        while i < self.feedback_destinations.len()
            invariant
                i <= self.feedback_destinations@.len(),
                list == dest_views(self.feedback_destinations@),
                dest_view(legacy) == (self.feedback_host@, self.feedback_port),
                dest_views(out@) == list.take(i as int),
                found == list.take(i as int).contains(dest_view(legacy)),
            decreases self.feedback_destinations.len() - i,
        {
            let d = &self.feedback_destinations[i];
            let ghost found_before = found;
            if d.same_as(&legacy) {
                found = true;
            }
            let ghost before = dest_views(out@);
            out.push(d.copy());
            proof {
                let t0 = list.take(i as int);
                let t1 = list.take(i + 1);
                assert(dest_views(out@) =~= before.push(list[i as int]));
                assert(t1 =~= t0.push(list[i as int]));
                if list[i as int] == dest_view(legacy) {
                    assert(t1[i as int] == dest_view(legacy));
                } else if found_before {
                    let k = choose|k: int| 0 <= k < t0.len() && #[trigger] t0[k] == dest_view(legacy);
                    assert(t1[k] == dest_view(legacy));
                } else {
                    assert forall|k: int| 0 <= k < t1.len() implies #[trigger] t1[k] != dest_view(
                        legacy,
                    ) by {
                        if k < i {
                            assert(t1[k] == t0[k]);
                        }
                    }
                }
            }
            i = i + 1;
        }
        proof {
            assert(list.take(self.feedback_destinations@.len() as int) =~= list);
        }
        if !found {
            let ghost before = dest_views(out@);
            out.insert(0, legacy);
            assert(dest_views(out@) =~= seq![dest_view(legacy)] + before);
        }
        out
    }
}

impl Default for OscConfig {
    fn default() -> (r: Self)
        ensures
            r.receive_port == 9000,
            r.feedback_port == 9001,
            r.feedback_host@ == "127.0.0.1"@,
            r.host@ == "0.0.0.0"@,
            r.feedback_destinations@.len() == 0,
    {
        OscConfig {
            receive_port: 9000,
            feedback_port: 9001,
            feedback_host: to_owned_string("127.0.0.1"),
            host: to_owned_string("0.0.0.0"),
            feedback_destinations: Vec::new(),
        }
    }
}

// ---------------------------------------------------------------------------
// Channels
// ---------------------------------------------------------------------------

/// The channel names allowed in broadcast mode.
pub open spec fn valid_channels() -> Seq<Seq<char>> {
    seq![
        "main"@,
        "backup"@,
        "keynote1"@,
        "keynote2"@,
        "keynote3"@,
        "keynote4"@,
        "keynote5"@,
        "keynote6"@,
        "keynote7"@,
        "keynote8"@,
        "keynote9"@,
        "aux1"@,
        "aux2"@,
        "aux3"@,
        "aux4"@,
        "aux5"@,
        "aux6"@,
        "aux7"@,
        "aux8"@,
        "aux9"@,
    ]
}

/// The channel names allowed in broadcast mode, in order.
pub fn valid_channel_names() -> (r: Vec<&'static str>)
    ensures
        r@.map_values(|s: &str| s@) == valid_channels(),
{
    let r = vec![
        "main",
        "backup",
        "keynote1",
        "keynote2",
        "keynote3",
        "keynote4",
        "keynote5",
        "keynote6",
        "keynote7",
        "keynote8",
        "keynote9",
        "aux1",
        "aux2",
        "aux3",
        "aux4",
        "aux5",
        "aux6",
        "aux7",
        "aux8",
        "aux9",
    ];
    assert(r@.map_values(|s: &str| s@) =~= valid_channels());
    r
}

/// Default port for channel broadcasts.
pub const DEFAULT_BROADCAST_PORT: u16 = 9002;

/// The broadcast port used when the settings name none.
pub fn default_broadcast_port() -> (r: u16)
    ensures
        r == DEFAULT_BROADCAST_PORT,
{
    DEFAULT_BROADCAST_PORT
}

/// A fresh random instance identifier (`Uuid::new_v4().to_string()`).
/// Nothing is claimed of the value: it is random.
#[verifier::external_body]
pub(crate) fn new_instance_id() -> (r: String) {
    uuid::Uuid::new_v4().to_string()
}

/// Settings for peer-to-peer channel synchronization.
#[derive(Debug)]
pub struct ChannelConfig {
    pub enabled: bool,
    pub channel_name: String,
    /// Unique instance identifier.
    pub instance_id: String,
    /// Human-readable name of this instance.
    pub display_name: Option<String>,
    /// UDP broadcast mode (vs direct IP).
    pub broadcast_mode: bool,
    pub broadcast_port: u16,
    /// Interface to advertise mDNS on (`None` is all of them).
    pub network_interface: Option<String>,
}

impl ChannelConfig {
    /// Whether `name` is one of the allowed channel names.
    pub fn is_valid_channel_name(name: &str) -> (r: bool)
        ensures
            r == valid_channels().contains(name@),
    {
        let names = valid_channel_names();
        let ghost vs = names@.map_values(|s: &str| s@);
        let mut i: usize = 0;
        while i < names.len()
            invariant
                i <= names@.len(),
                vs == names@.map_values(|s: &str| s@),
                vs == valid_channels(),
                forall|j: int| 0 <= j < i ==> vs[j] != name@,
            decreases names.len() - i,
        {
            if str_eq(names[i], name) {
                assert(vs[i as int] == name@);
                return true;
            }
            i = i + 1;
        }
        false
    }

    /// The OSC address prefix of this channel: `/clicker/<name>`.
    pub fn osc_prefix(&self) -> (r: String)
        ensures
            r@ == "/clicker/"@ + self.channel_name@,
    {
        let mut r = to_owned_string("/clicker/");
        push_str(&mut r, self.channel_name.as_str());
        r
    }

    /// The defaults: disabled, channel `main`, a fresh instance id, direct
    /// mode on the default broadcast port, all interfaces.
    pub fn default_with_id(instance_id: String) -> (r: Self)
        ensures
            !r.enabled,
            r.channel_name@ == "main"@,
            r.instance_id == instance_id,
            r.display_name is None,
            !r.broadcast_mode,
            r.broadcast_port == DEFAULT_BROADCAST_PORT,
            r.network_interface is None,
    {
        ChannelConfig {
            enabled: false,
            channel_name: to_owned_string("main"),
            instance_id,
            display_name: None,
            broadcast_mode: false,
            broadcast_port: DEFAULT_BROADCAST_PORT,
            network_interface: None,
        }
    }
}

impl Default for ChannelConfig {
    fn default() -> (r: Self)
        ensures
            !r.enabled,
            r.channel_name@ == "main"@,
            r.display_name is None,
            !r.broadcast_mode,
            r.broadcast_port == DEFAULT_BROADCAST_PORT,
            r.network_interface is None,
    {
        ChannelConfig::default_with_id(new_instance_id())
    }
}

/// Logging settings.
#[derive(Debug, Clone, Copy)]
pub struct LoggingConfig {
    pub enabled: bool,
    pub verbose: bool,
}

impl Default for LoggingConfig {
    fn default() -> (r: Self)
        ensures
            r.enabled && !r.verbose,
    {
        LoggingConfig { enabled: true, verbose: false }
    }
}

/// All desktop settings.
#[derive(Debug)]
pub struct AppConfig {
    pub osc: OscConfig,
    pub adapter: String,
    pub presentation_name: String,
    pub logging: LoggingConfig,
    pub channel: ChannelConfig,
}

/// The adapter a fresh install uses: PowerPoint on macOS, LibreOffice
/// elsewhere.
pub open spec fn default_adapter(platform: Platform) -> Seq<char> {
    if platform == Platform::MacOs {
        "powerpoint"@
    } else {
        "libreoffice"@
    }
}

impl AppConfig {
    /// The settings of a fresh install on `platform`.
    pub fn default_for(platform: Platform) -> (r: Self)
        ensures
            r.adapter@ == default_adapter(platform),
            r.presentation_name@.len() == 0,
            r.osc.receive_port == 9000 && r.osc.feedback_port == 9001,
            r.osc.feedback_destinations@.len() == 0,
            r.logging.enabled && !r.logging.verbose,
            !r.channel.enabled && r.channel.channel_name@ == "main"@,
            r.channel.broadcast_port == DEFAULT_BROADCAST_PORT,
    {
        let adapter = match platform {
            Platform::MacOs => to_owned_string("powerpoint"),
            _ => to_owned_string("libreoffice"),
        };
        AppConfig {
            osc: OscConfig::default(),
            adapter,
            presentation_name: String::new(),
            logging: LoggingConfig::default(),
            channel: ChannelConfig::default(),
        }
    }
}

/// The legacy destination is always among all destinations, exactly once
/// when the configured list does not repeat it, and every configured one
/// stays.
pub proof fn legacy_destination_always_present(c: OscConfig)
    ensures
        all_destinations(c).contains((c.feedback_host@, c.feedback_port)),
        forall|i: int|
            0 <= i < dest_views(c.feedback_destinations@).len() ==> all_destinations(c).contains(
                #[trigger] dest_views(c.feedback_destinations@)[i],
            ),
{
    let legacy = (c.feedback_host@, c.feedback_port);
    let list = dest_views(c.feedback_destinations@);
    if !list.contains(legacy) {
        let all = seq![legacy] + list;
        assert(all[0] == legacy);
        assert forall|i: int| 0 <= i < list.len() implies all.contains(#[trigger] list[i]) by {
            assert(all[i + 1] == list[i]);
        }
    } else {
        assert forall|i: int| 0 <= i < list.len() implies list.contains(#[trigger] list[i]) by {}
    }
}

} // verus!

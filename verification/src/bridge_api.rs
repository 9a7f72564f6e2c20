//! The desktop app's view of a bridge's HTTP configuration API: the values
//! it exchanges and where each call goes. Sending the requests and reading
//! the JSON replies is the caller's part.

use vstd::prelude::*;
use crate::text::{decimal, push_str, to_owned_string, u64_to_decimal};

verus! {

/// Whether the bridge service runs.
#[derive(Debug)]
pub struct BridgeStatus {
    pub running: bool,
}

/// Where a satellite bridge finds its Companion server.
#[derive(Debug)]
pub struct SatelliteConfig {
    pub host: Option<String>,
    pub port: Option<u16>,
}

/// The bridge's global settings.
#[derive(Debug)]
pub struct BridgeGlobalConfig {
    pub mode: String,
    pub broadcast_port: u16,
    pub feedback_port: u16,
    pub log_level: String,
    pub bridge_id: Option<String>,
    pub bridge_name: Option<String>,
    pub satellite: SatelliteConfig,
    pub valid_channels: Vec<String>,
    pub valid_modes: Vec<String>,
    pub error: Option<String>,
}

/// A registered device slot.
#[derive(Debug)]
pub struct BridgeDeviceSlot {
    pub label: String,
    pub usb_phys: String,
    pub channel: String,
}

/// The registered slots (slot name, and its device if one is registered)
/// and the settings sent along with them.
#[derive(Debug)]
pub struct BridgeRegisteredDevices {
    pub devices: Vec<(String, Option<BridgeDeviceSlot>)>,
    pub mode: Option<String>,
    pub log_level: Option<String>,
    pub feedback_port: Option<u16>,
    pub broadcast_port: Option<u16>,
    pub bridge_id: Option<String>,
    pub bridge_name: Option<String>,
    pub valid_channels: Option<Vec<String>>,
    pub valid_modes: Option<Vec<String>>,
    pub error: Option<String>,
}

/// A connected input device.
#[derive(Debug)]
pub struct ConnectedDevice {
    pub name: String,
    pub path: String,
    pub usb_phys: Option<String>,
    pub is_perfect_cue: Option<bool>,
}

/// The connected input devices.
#[derive(Debug)]
pub struct BridgeConnectedDevices {
    pub devices: Vec<ConnectedDevice>,
}

/// The state of registration mode.
#[derive(Debug)]
pub struct BridgeRegistrationStatus {
    pub active: bool,
    pub target_slot: Option<String>,
    pub detected_phys: Option<String>,
    pub detected_name: Option<String>,
}

/// The connection to the Companion server.
#[derive(Debug)]
pub struct BridgeSatelliteStatus {
    pub connected: bool,
    pub host: Option<String>,
    pub port: Option<u16>,
    pub companion_version: Option<String>,
    pub api_version: Option<String>,
}

/// The presentation state the bridge last heard.
#[derive(Debug)]
pub struct BridgeFeedback {
    pub presenting: bool,
    pub open: bool,
    pub current_slide: u32,
    pub total_slides: u32,
    pub zoom_level: u32,
    pub last_updated: Option<String>,
    pub last_command: Option<String>,
    pub last_command_time: Option<String>,
}

/// The answer to a command.
#[derive(Debug)]
pub struct BridgeApiResponse {
    pub success: bool,
    pub message: String,
}

/// The bridge's recent log lines.
#[derive(Debug)]
pub struct BridgeLogs {
    pub logs: Vec<String>,
}

/// New global settings.
#[derive(Debug)]
pub struct SaveGlobalConfigRequest {
    pub mode: Option<String>,
    pub broadcast_port: u16,
    pub feedback_port: u16,
    pub log_level: String,
    pub bridge_name: Option<String>,
    pub satellite: Option<SatelliteConfig>,
}

/// Enter registration mode for a slot.
#[derive(Debug)]
pub struct StartRegistrationRequest {
    pub slot: String,
}

/// Register the detected device in a slot.
#[derive(Debug)]
pub struct ConfirmRegistrationRequest {
    pub slot: String,
    pub usb_phys: String,
    pub channel: String,
    pub label: String,
}

/// The HTTP method of a call.
#[derive(Debug, Clone, Copy, PartialEq, Eq, Structural)]
pub enum HttpMethod {
    Get,
    Post,
}

/// The calls the desktop app makes.
#[derive(Debug)]
pub enum BridgeCall {
    Status,
    GetConfig,
    SaveConfig,
    Feedback,
    Devices,
    RegisteredDevices,
    RegistrationStatus,
    StartRegistration,
    CancelRegistration,
    ConfirmRegistration,
    Unregister { slot: String },
    TestDevice { slot: String, command: String },
    Logs,
    SatelliteStatus,
}

/// The root of a bridge's API: `http://{host}:{port}`.
pub open spec fn base_url_text(host: Seq<char>, port: u16) -> Seq<char> {
    "http://"@ + host + ":"@ + decimal(port as nat)
}

/// `http://{host}:{port}`.
pub fn base_url(host: &str, port: u16) -> (r: String)
    ensures
        r@ == base_url_text(host@, port),
{
    let mut url = to_owned_string("http://");
    push_str(&mut url, host);
    push_str(&mut url, ":");
    let digits = u64_to_decimal(port as u64);
    push_str(&mut url, digits.as_str());
    url
}

/// The method of each call: reads are `GET`, commands `POST`.
pub open spec fn call_method(call: BridgeCall) -> HttpMethod {
    match call {
        BridgeCall::Status | BridgeCall::GetConfig | BridgeCall::Feedback | BridgeCall::Devices
        | BridgeCall::RegisteredDevices | BridgeCall::RegistrationStatus | BridgeCall::Logs
        | BridgeCall::SatelliteStatus => HttpMethod::Get,
        _ => HttpMethod::Post,
    }
}

/// The path of each call below the API root.
pub open spec fn call_path(call: BridgeCall) -> Seq<char> {
    match call {
        BridgeCall::Status => "/status"@,
        BridgeCall::GetConfig => "/config/global"@,
        BridgeCall::SaveConfig => "/config/global"@,
        BridgeCall::Feedback => "/feedback"@,
        BridgeCall::Devices => "/devices"@,
        BridgeCall::RegisteredDevices => "/devices/registered"@,
        BridgeCall::RegistrationStatus => "/registration/status"@,
        BridgeCall::StartRegistration => "/registration/start"@,
        BridgeCall::CancelRegistration => "/registration/cancel"@,
        BridgeCall::ConfirmRegistration => "/registration/confirm"@,
        BridgeCall::Unregister { slot } => "/devices/"@ + slot@ + "/unregister"@,
        BridgeCall::TestDevice { slot, command } => "/devices/"@ + slot@ + "/test/"@ + command@,
        BridgeCall::Logs => "/logs"@,
        BridgeCall::SatelliteStatus => "/satellite/status"@,
    }
}

/// The method and full address of `call` on the API rooted at `base`.
pub fn call_request(base: &str, call: &BridgeCall) -> (r: (HttpMethod, String))
    ensures
        r.0 == call_method(*call),
        r.1@ == base@ + call_path(*call),
{
    let mut url = to_owned_string(base);
    let method = match call {
        BridgeCall::Status => {
            push_str(&mut url, "/status");
            HttpMethod::Get
        },
        BridgeCall::GetConfig => {
            push_str(&mut url, "/config/global");
            HttpMethod::Get
        },
        BridgeCall::SaveConfig => {
            push_str(&mut url, "/config/global");
            HttpMethod::Post
        },
        BridgeCall::Feedback => {
            push_str(&mut url, "/feedback");
            HttpMethod::Get
        },
        BridgeCall::Devices => {
            push_str(&mut url, "/devices");
            HttpMethod::Get
        },
        BridgeCall::RegisteredDevices => {
            push_str(&mut url, "/devices/registered");
            HttpMethod::Get
        },
        BridgeCall::RegistrationStatus => {
            push_str(&mut url, "/registration/status");
            HttpMethod::Get
        },
        BridgeCall::StartRegistration => {
            push_str(&mut url, "/registration/start");
            HttpMethod::Post
        },
        BridgeCall::CancelRegistration => {
            push_str(&mut url, "/registration/cancel");
            HttpMethod::Post
        },
        BridgeCall::ConfirmRegistration => {
            push_str(&mut url, "/registration/confirm");
            HttpMethod::Post
        },
        BridgeCall::Unregister { slot } => {
            push_str(&mut url, "/devices/");
            push_str(&mut url, slot.as_str());
            push_str(&mut url, "/unregister");
            HttpMethod::Post
        },
        BridgeCall::TestDevice { slot, command } => {
            push_str(&mut url, "/devices/");
            push_str(&mut url, slot.as_str());
            push_str(&mut url, "/test/");
            push_str(&mut url, command.as_str());
            HttpMethod::Post
        },
        BridgeCall::Logs => {
            push_str(&mut url, "/logs");
            HttpMethod::Get
        },
        BridgeCall::SatelliteStatus => {
            push_str(&mut url, "/satellite/status");
            HttpMethod::Get
        },
    };
    (method, url)
}

} // verus!

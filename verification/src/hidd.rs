//! Decisions of the HID device event callback: the connection flag that
//! gates report sending, when to (re)start advertising, and when to load
//! the feature reports the host reads during enumeration.
use vstd::prelude::*;

use crate::ptp::{is_ptp_input_mode, selects_ptp_mode, REPORTID_REPORTMODE};

verus! {

/// HID device started.
pub const ESP_HIDD_START_EVENT: i32 = 0;
/// A host connected.
pub const ESP_HIDD_CONNECT_EVENT: i32 = 1;
/// The host changed the protocol mode.
pub const ESP_HIDD_PROTOCOL_MODE_EVENT: i32 = 2;
/// The host sent a control request.
pub const ESP_HIDD_CONTROL_EVENT: i32 = 3;
/// The host wrote an output report.
pub const ESP_HIDD_OUTPUT_EVENT: i32 = 4;
/// The host read or wrote a feature report.
pub const ESP_HIDD_FEATURE_EVENT: i32 = 5;
/// The host disconnected.
pub const ESP_HIDD_DISCONNECT_EVENT: i32 = 6;
/// HID device stopped.
pub const ESP_HIDD_STOP_EVENT: i32 = 7;

/// What the device does in answer to one HID device event.
#[derive(Clone, Copy, Debug, PartialEq, Eq)]
pub struct HiddReaction {
    /// Whether reports may be sent after the event.
    pub connected: bool,
    /// Whether advertising is (re)started.
    pub start_advertising: bool,
    /// Whether the feature reports are loaded for the host to read.
    pub preload_features: bool,
}

/// The reaction to event `event_id` while the connection flag is `connected`.
///
/// The host finishing enumeration (its first feature report access) marks
/// the device connected; a disconnect clears the flag and restarts
/// advertising; a connect loads the feature reports.
pub open spec fn hidd_reaction(connected: bool, event_id: i32) -> HiddReaction {
    if event_id == ESP_HIDD_START_EVENT {
        HiddReaction { connected, start_advertising: true, preload_features: false }
    } else if event_id == ESP_HIDD_CONNECT_EVENT {
        HiddReaction { connected, start_advertising: false, preload_features: true }
    } else if event_id == ESP_HIDD_FEATURE_EVENT {
        HiddReaction { connected: true, start_advertising: false, preload_features: false }
    } else if event_id == ESP_HIDD_DISCONNECT_EVENT {
        HiddReaction { connected: false, start_advertising: true, preload_features: false }
    } else {
        HiddReaction { connected, start_advertising: false, preload_features: false }
    }
}

/// Decide the reaction to one HID device event.
pub fn hidd_step(connected: bool, event_id: i32) -> (reaction: HiddReaction)
    ensures
        reaction == hidd_reaction(connected, event_id),
{
    if event_id == ESP_HIDD_START_EVENT {
        HiddReaction { connected, start_advertising: true, preload_features: false }
    } else if event_id == ESP_HIDD_CONNECT_EVENT {
        HiddReaction { connected, start_advertising: false, preload_features: true }
    } else if event_id == ESP_HIDD_FEATURE_EVENT {
        HiddReaction { connected: true, start_advertising: false, preload_features: false }
    } else if event_id == ESP_HIDD_DISCONNECT_EVENT {
        HiddReaction { connected: false, start_advertising: true, preload_features: false }
    } else {
        HiddReaction { connected, start_advertising: false, preload_features: false }
    }
}

/// Whether a feature report written by the host selects PTP reporting:
/// the input-mode report carrying the PTP mode value first.
pub open spec fn feature_is_ptp_selection(report_id: u16, data: Seq<u8>) -> bool {
    report_id == REPORTID_REPORTMODE as u16 && selects_ptp_mode(data)
}

/// Whether the host's feature write selects the precision-touchpad mode.
pub fn feature_selects_ptp(report_id: u16, data: &[u8]) -> (ptp: bool)
    ensures
        ptp == feature_is_ptp_selection(report_id, data@),
{
    report_id == REPORTID_REPORTMODE as u16 && is_ptp_input_mode(data)
}

/// Reports may be sent only between the host's first feature report access
/// and the next disconnect: a disconnect always clears the flag, and only
/// a feature event sets it.
pub proof fn lemma_connection_flag(connected: bool, event_id: i32)
    ensures
        event_id == ESP_HIDD_DISCONNECT_EVENT ==> !hidd_reaction(connected, event_id).connected
            && hidd_reaction(connected, event_id).start_advertising,
        !connected && hidd_reaction(connected, event_id).connected ==> event_id
            == ESP_HIDD_FEATURE_EVENT,
{
}

} // verus!

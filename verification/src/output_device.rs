//! What happens when the default output device of the system changes.

use crate::app::{AppView, AudioOrbitApp, Effect, EffectView, OutputDeviceView, PlayerStatus};
use crate::app;
use crate::seeking;
use crate::text;
use crate::track;
use vstd::prelude::*;
use vstd::string::*;

verus! {

/// What a look at the default output device calls for.
#[derive(Clone, Copy, Debug, PartialEq, Eq, Structural)]
pub enum OutputDeviceChangeAction {
    /// Nothing is to be done.
    Keep,
    /// The device in use is the default again.
    ClearPending,
    /// The user is told of another device.
    Notify,
    /// Playback moves to another device.
    Refresh,
}

/// What a look at the default output device calls for: nothing new for the device in use and
/// for one that was noticed before, else a notice or a switch.
pub open spec fn change_action(
    last_known: Seq<char>,
    detected: Option<Seq<char>>,
    current: Seq<char>,
    auto_switch: bool,
) -> OutputDeviceChangeAction {
    if current == last_known {
        if detected is Some {
            OutputDeviceChangeAction::ClearPending
        } else {
            OutputDeviceChangeAction::Keep
        }
    } else if detected == Some(current) {
        OutputDeviceChangeAction::Keep
    } else if auto_switch {
        OutputDeviceChangeAction::Refresh
    } else {
        OutputDeviceChangeAction::Notify
    }
}

/// What a look at the default output device calls for.
pub fn output_device_change_action(
    last_known_output: &str,
    detected_output: Option<&str>,
    current_output: &str,
    auto_switch_output_device: bool,
) -> (action: OutputDeviceChangeAction)
    ensures
        action == change_action(
            last_known_output@,
            track::optional_text(detected_output),
            current_output@,
            auto_switch_output_device,
        ),
{
    if text::same_text(current_output, last_known_output) {
        return if detected_output.is_some() {
            OutputDeviceChangeAction::ClearPending
        } else {
            OutputDeviceChangeAction::Keep
        };
    }
    if let Some(detected) = detected_output {
        if text::same_text(detected, current_output) {
            return OutputDeviceChangeAction::Keep;
        }
    }
    if auto_switch_output_device {
        OutputDeviceChangeAction::Refresh
    } else {
        OutputDeviceChangeAction::Notify
    }
}

/// The notice of another output device.
pub open spec fn change_message(output_name: Seq<char>) -> Seq<char> {
    "Output device changed to "@ + output_name
        + ". Refresh output to continue on the new device."@
}

/// The notice of another output device.
pub fn output_device_change_message(output_name: &str) -> (message: String)
    ensures
        message@ == change_message(output_name@),
{
    let mut message = "Output device changed to ".to_owned();
    message.append(output_name);
    message.append(". Refresh output to continue on the new device.");
    message
}

/// A device that was noticed once calls for nothing more, whether or not playback moves by
/// itself.
pub proof fn noticed_device_is_kept(
    last_known: Seq<char>,
    current: Seq<char>,
    auto_switch: bool,
)
    requires
        current != last_known,
    ensures
        change_action(last_known, Some(current), current, auto_switch)
            == OutputDeviceChangeAction::Keep,
{
}

/// Playback moves or the user is told exactly where another device shows up that was not
/// noticed before.
pub proof fn new_device_is_noticed(
    last_known: Seq<char>,
    detected: Option<Seq<char>>,
    current: Seq<char>,
    auto_switch: bool,
)
    ensures
        (change_action(last_known, detected, current, auto_switch)
            == OutputDeviceChangeAction::Notify || change_action(
            last_known,
            detected,
            current,
            auto_switch,
        ) == OutputDeviceChangeAction::Refresh) <==> current != last_known && detected != Some(
            current,
        ),
{
}

// ---------------------------------------------------------------------------
// The application and its output device
// ---------------------------------------------------------------------------

/// How often the default output device is looked at, in milliseconds.
pub const OUTPUT_CHECK_INTERVAL_MILLIS: u64 = 2000;

impl AppView {
    /// What a look at the default output device calls for.
    pub open spec fn output_action(self, current: Seq<char>) -> OutputDeviceChangeAction {
        change_action(
            self.output.last_known_name,
            self.output.detected_change,
            current,
            self.state.playback.auto_switch_output_device,
        )
    }

    /// The application after a look at the default output device.
    pub open spec fn with_output_checked(self, now: u64, current: Seq<char>) -> AppView {
        let checked = AppView {
            output: OutputDeviceView { last_check_at: now, ..self.output },
            ..self
        };
        match self.output_action(current) {
            OutputDeviceChangeAction::Keep => checked,
            OutputDeviceChangeAction::ClearPending => {
                let cleared = AppView {
                    output: OutputDeviceView { detected_change: None, ..checked.output },
                    ..checked
                };
                if self.messages.status == change_message(self.output.detected_change->0) {
                    cleared.with_status(Seq::empty())
                } else {
                    cleared
                }
            },
            OutputDeviceChangeAction::Notify => (AppView {
                output: OutputDeviceView { detected_change: Some(current), ..checked.output },
                ..checked
            }).with_status(change_message(current)),
            OutputDeviceChangeAction::Refresh => AppView {
                output: OutputDeviceView { detected_change: Some(current), ..checked.output },
                ..checked
            },
        }
    }

    /// The application once it has asked for what was playing to go on.
    pub open spec fn with_playback_resumed(
        self,
        before: PlayerStatus,
        position_bits: u32,
    ) -> AppView {
        if before.active() {
            let asked = match self.radio.active_index {
                Some(index) => {
                    let requested = self.with_station_requested(index, app::stopped_player());
                    if before.recording {
                        requested.with_effect(EffectView::RecordAgain)
                    } else {
                        requested
                    }
                },
                None => match self.active_track_path {
                    Some(path) => self.with_path_requested(
                        path,
                        self.active_track_index,
                        position_bits,
                        app::stopped_player(),
                    ),
                    None => self,
                },
            };
            if before.paused {
                asked.with_effect(EffectView::PauseAgain)
            } else {
                asked
            }
        } else {
            self
        }
    }

    /// The application after the player has moved to an output device.
    pub open spec fn with_output_refreshed(
        self,
        name: Seq<char>,
        before: PlayerStatus,
        position_bits: u32,
    ) -> AppView {
        (AppView {
            output: OutputDeviceView {
                detected_change: None,
                last_known_name: name,
                ..self.output
            },
            ..self
        }).with_status("Output refreshed: "@ + name + "."@).with_error(
            None,
        ).with_playback_resumed(before, position_bits)
    }
}

impl AudioOrbitApp {
    /// Looks at the default output device, not too often. Returns whether playback is to move
    /// to it.
    pub fn poll_output_device_change(&mut self, now: u64, current_output: &str) -> (refresh: bool)
        ensures
            ({
                let due = seeking::elapsed(now, old(self)@.output.last_check_at)
                    >= OUTPUT_CHECK_INTERVAL_MILLIS;
                &&& final(self)@ == if due {
                    old(self)@.with_output_checked(now, current_output@)
                } else {
                    old(self)@
                }
                &&& refresh == (due && old(self)@.output_action(current_output@)
                    == OutputDeviceChangeAction::Refresh)
            }),
    {
        if seeking::time_since(now, self.output.last_check_at) < OUTPUT_CHECK_INTERVAL_MILLIS {
            return false;
        }
        let detected = match &self.output.detected_change {
            Some(detected) => Some(detected.as_str()),
            None => None,
        };
        let action = output_device_change_action(
            self.output.last_known_name.as_str(),
            detected,
            current_output,
            self.state.playback.auto_switch_output_device,
        );
        self.output.last_check_at = now;
        match action {
            OutputDeviceChangeAction::Keep => {
                assert(self@ =~= old(self)@.with_output_checked(now, current_output@));
                false
            },
            OutputDeviceChangeAction::ClearPending => {
                self.clear_detected_output();
                false
            },
            OutputDeviceChangeAction::Notify => {
                self.output.detected_change = Some(current_output.to_owned());
                self.set_status(output_device_change_message(current_output));
                false
            },
            OutputDeviceChangeAction::Refresh => {
                self.output.detected_change = Some(current_output.to_owned());
                assert(self@ =~= old(self)@.with_output_checked(now, current_output@));
                true
            },
        }
    }

    /// Forgets a device that was noticed, and the notice of it.
    fn clear_detected_output(&mut self)
        ensures
            ({
                let cleared = AppView {
                    output: OutputDeviceView { detected_change: None, ..old(self)@.output },
                    ..old(self)@
                };
                final(self)@ == if old(self)@.output.detected_change is Some
                    && old(self)@.messages.status == change_message(
                    old(self)@.output.detected_change->0,
                ) {
                    cleared.with_status(Seq::empty())
                } else {
                    cleared
                }
            }),
    {
        let shown = match &self.output.detected_change {
            Some(detected) => {
                let message = output_device_change_message(detected.as_str());
                self.messages.status == message
            },
            None => false,
        };
        self.output.detected_change = None;
        if shown {
            self.set_status(String::new());
        }
    }

    /// Takes note that the player has moved to an output device; what was playing before goes
    /// on. `before` is what the player was doing.
    pub fn output_refreshed(
        &mut self,
        output_name: String,
        before: PlayerStatus,
        position_bits: u32,
    )
        ensures
            final(self)@ == old(self)@.with_output_refreshed(
                output_name@,
                before,
                position_bits,
            ),
    {
        let mut text = "Output refreshed: ".to_owned();
        text.append(output_name.as_str());
        text.append(".");
        self.output.detected_change = None;
        self.output.last_known_name = output_name;
        self.set_status(text);
        self.set_error(None);
        self.resume_playback(before, position_bits);
    }

    /// Asks for what was playing to go on.
    fn resume_playback(&mut self, before: PlayerStatus, position_bits: u32)
        ensures
            final(self)@ == old(self)@.with_playback_resumed(before, position_bits),
    {
        if !before.is_active() {
            return;
        }
        let fresh = PlayerStatus {
            available: true,
            playing: false,
            paused: false,
            finished: false,
            recording: false,
        };
        if let Some(index) = self.radio.active_index {
            self.play_radio_station(index, fresh);
            if before.recording {
                self.ask(Effect::RecordAgain);
            }
        } else {
            let path = self.active_track_path.clone();
            if let Some(path) = path {
                let track_index = self.active_track_index;
                self.play_path(path, track_index, position_bits, fresh);
            }
        }
        if before.paused {
            self.ask(Effect::PauseAgain);
        }
    }

    /// Takes note that the player could not move to an output device.
    pub fn output_refresh_failed(&mut self, error: String)
        ensures
            final(self)@ == old(self)@.with_error(Some(error@)).with_status(
                "Could not refresh output device."@,
            ),
    {
        self.set_error(Some(error));
        self.set_status("Could not refresh output device.".to_owned());
    }
}

} // verus!

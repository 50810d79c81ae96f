//! The update control of the system information page: a button that first
//! looks for a newer release and, once one is offered, installs it; and the
//! status shown while that happens.
use vstd::prelude::*;
use crate::text::{chars_of, owned, push_str, string_of};
use crate::updater::ReleaseInfo;

verus! {

/// What the background work reports to the update control.
pub enum UpdateMessage {
    Checking,
    NoUpdate,
    UpdateAvailable(ReleaseInfo),
    CheckFailed(String),
    Installing,
    UpdateSuccess,
    UpdateFailed(String),
}

/// The state of the update control.
pub struct UpdatePanel {
    pub status: String,
    pub button_label: String,
    pub button_enabled: bool,
    /// The release offered and not yet installed.
    pub pending: Option<ReleaseInfo>,
}

/// The state of the update control, by view.
pub struct PanelView {
    pub status: Seq<char>,
    pub button_label: Seq<char>,
    pub button_enabled: bool,
    pub pending: Option<ReleaseInfo>,
}

/// What pressing the button starts.
pub enum UpdateAction {
    /// Install the release that was offered.
    Install(ReleaseInfo),
    /// Look for a newer release.
    Check,
}

impl UpdatePanel {
    pub open spec fn view(self) -> PanelView {
        PanelView {
            status: self.status@,
            button_label: self.button_label@,
            button_enabled: self.button_enabled,
            pending: self.pending,
        }
    }

    /// The control before anything happened: a button that looks for
    /// updates.
    pub fn new() -> (p: UpdatePanel)
        ensures
            p.view() == (PanelView {
                status: Seq::<char>::empty(),
                button_label: "Check for Updates"@,
                button_enabled: true,
                pending: None,
            }),
    {
        UpdatePanel {
            status: String::new(),
            button_label: owned("Check for Updates"),
            button_enabled: true,
            pending: None,
        }
    }
}

/// The control after the message `m`.
pub open spec fn spec_apply(p: PanelView, m: UpdateMessage) -> PanelView {
    match m {
        UpdateMessage::Checking => PanelView {
            status: "Checking for updates..."@,
            button_enabled: false,
            ..p
        },
        UpdateMessage::NoUpdate => PanelView {
            status: "App Pro is up to date."@,
            button_label: "Check for Updates"@,
            button_enabled: true,
            ..p
        },
        UpdateMessage::UpdateAvailable(r) => PanelView {
            status: "New version "@ + r.tag_name@ + " available!"@,
            button_label: "Install Update"@,
            button_enabled: true,
            pending: Some(r),
        },
        UpdateMessage::CheckFailed(e) => PanelView {
            status: "Check failed: "@ + e@,
            button_label: "Check for Updates"@,
            button_enabled: true,
            ..p
        },
        UpdateMessage::Installing => PanelView {
            status: "Installing update... Please wait."@,
            button_enabled: false,
            ..p
        },
        UpdateMessage::UpdateSuccess => PanelView {
            status: "Update successful! Restart the application to apply."@,
            button_label: "Restart Required"@,
            button_enabled: false,
            ..p
        },
        UpdateMessage::UpdateFailed(e) => PanelView {
            status: "Update failed: "@ + e@,
            button_label: "Check for Updates"@,
            button_enabled: true,
            ..p
        },
    }
}

/// What pressing the button starts, and the control afterwards: the offered
/// release is taken to be installed, else a check starts.
pub open spec fn spec_click(p: PanelView) -> (UpdateAction, PanelView) {
    match p.pending {
        Some(r) => (UpdateAction::Install(r), PanelView { pending: None, ..p }),
        None => (UpdateAction::Check, p),
    }
}

fn text(prefix: &str, s: &str, suffix: &str) -> (r: String)
    ensures
        r@ == prefix@ + s@ + suffix@,
{
    let mut v = chars_of(prefix);
    push_str(&mut v, s);
    push_str(&mut v, suffix);
    string_of(&v)
}

impl UpdatePanel {
    /// Shows the message `m`.
    pub fn apply(&mut self, m: UpdateMessage)
        ensures
            final(self).view() == spec_apply(old(self).view(), m),
    {
        match m {
            UpdateMessage::Checking => {
                self.status = owned("Checking for updates...");
                self.button_enabled = false;
            },
            UpdateMessage::NoUpdate => {
                self.status = owned("App Pro is up to date.");
                self.button_label = owned("Check for Updates");
                self.button_enabled = true;
            },
            UpdateMessage::UpdateAvailable(r) => {
                self.status = text("New version ", r.tag_name.as_str(), " available!");
                self.button_label = owned("Install Update");
                self.button_enabled = true;
                self.pending = Some(r);
            },
            UpdateMessage::CheckFailed(e) => {
                proof {
                    reveal_strlit("");
                }
                self.status = text("Check failed: ", e.as_str(), "");
                self.button_label = owned("Check for Updates");
                self.button_enabled = true;
            },
            UpdateMessage::Installing => {
                self.status = owned("Installing update... Please wait.");
                self.button_enabled = false;
            },
            UpdateMessage::UpdateSuccess => {
                self.status = owned("Update successful! Restart the application to apply.");
                self.button_label = owned("Restart Required");
                self.button_enabled = false;
            },
            UpdateMessage::UpdateFailed(e) => {
                proof {
                    reveal_strlit("");
                }
                self.status = text("Update failed: ", e.as_str(), "");
                self.button_label = owned("Check for Updates");
                self.button_enabled = true;
            },
        }
    }

    /// Presses the button: what it starts.
    pub fn click(&mut self) -> (a: UpdateAction)
        ensures
            (a, final(self).view()) == spec_click(old(self).view()),
    {
        match self.pending.take() {
            Some(r) => UpdateAction::Install(r),
            None => UpdateAction::Check,
        }
    }
}

/// The message that a finished check gives: the release offered, that there
/// is none, or why the check failed.
pub fn check_finished(outcome: Result<Option<ReleaseInfo>, String>) -> (m: UpdateMessage)
    ensures
        m == match outcome {
            Ok(Some(r)) => UpdateMessage::UpdateAvailable(r),
            Ok(None) => UpdateMessage::NoUpdate,
            Err(e) => UpdateMessage::CheckFailed(e),
        },
{
    match outcome {
        Ok(Some(r)) => UpdateMessage::UpdateAvailable(r),
        Ok(None) => UpdateMessage::NoUpdate,
        Err(e) => UpdateMessage::CheckFailed(e),
    }
}

/// The message that a finished installation gives.
pub fn install_finished(outcome: Result<(), String>) -> (m: UpdateMessage)
    ensures
        m == match outcome {
            Ok(()) => UpdateMessage::UpdateSuccess,
            Err(e) => UpdateMessage::UpdateFailed(e),
        },
{
    match outcome {
        Ok(()) => UpdateMessage::UpdateSuccess,
        Err(e) => UpdateMessage::UpdateFailed(e),
    }
}

/// A release that a check offers is what the next press of the button
/// installs, and it is offered once: after that press nothing is pending.
pub proof fn lemma_offered_release_is_installed(p: PanelView, r: ReleaseInfo)
    ensures
        spec_click(spec_apply(p, UpdateMessage::UpdateAvailable(r))).0 == UpdateAction::Install(r),
        spec_click(spec_apply(p, UpdateMessage::UpdateAvailable(r))).1.pending is None,
{
}

/// Without an offered release, the button only ever starts a check.
pub proof fn lemma_no_offer_checks(p: PanelView)
    requires
        p.pending is None,
    ensures
        spec_click(p) == (UpdateAction::Check, p),
{
}

/// Once the press has taken the offered release, pressing again (before any
/// new message) starts a check rather than a second installation.
pub proof fn lemma_install_once(p: PanelView)
    ensures
        spec_click(spec_click(p).1).0 == UpdateAction::Check,
{
}

} // verus!

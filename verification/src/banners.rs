//! Inline banners of a terminal: the one shown when the shell process ends, and the
//! one-time banner that tells users who had opted into the tmux-based SSH flow that it
//! was turned off in favour of the SSH extension, with a link to the docs.

use vstd::prelude::*;

use crate::catalog::CatalogBundle;
use crate::locale::LocaleId;
use crate::localization::{bundle_text, text_for_locale};

verus! {


/// How prominent an inline banner is.
#[derive(Clone, Copy, Debug, PartialEq, Eq, Structural)]
pub enum InlineBannerStyle {
    CallToAction,
    LowPriority,
}

/// The content of the banner shown when the shell process ended.
#[derive(Clone, Debug, PartialEq, Eq)]
pub struct ShellTerminatedBanner {
    pub style: InlineBannerStyle,
    pub title: String,
    /// The bundled icon shown before the title.
    pub icon_asset: &'static str,
    /// Whether the icon takes the theme's foreground colour.
    pub icon_in_foreground: bool,
    pub detail: Option<String>,
}

/// The banner shown when the shell process ended, with texts in `locale`: a call to
/// action with a warning and a note on the debug output when it ended prematurely, a
/// low-priority note otherwise.
pub fn shell_process_terminated_banner(
    bundle: &CatalogBundle,
    locale: LocaleId,
    was_premature_termination: bool,
) -> (r: ShellTerminatedBanner)
    ensures
        was_premature_termination ==> {
            &&& r.style == InlineBannerStyle::CallToAction
            &&& r.title@ == bundle_text(bundle, locale, "terminal.inline_banner.shell_process.exited_prematurely"@)
            &&& r.icon_asset == "bundled/svg/warning.svg"
            &&& r.icon_in_foreground
            &&& r.detail matches Some(d) && d@ == bundle_text(
                bundle,
                locale,
                "terminal.inline_banner.shell_process.debug_output_visible"@,
            )
        },
        !was_premature_termination ==> {
            &&& r.style == InlineBannerStyle::LowPriority
            &&& r.title@ == bundle_text(bundle, locale, "terminal.inline_banner.shell_process.exited"@)
            &&& r.icon_asset == "bundled/svg/info.svg"
            &&& !r.icon_in_foreground
            &&& r.detail is None
        },
{
    if was_premature_termination {
        ShellTerminatedBanner {
            style: InlineBannerStyle::CallToAction,
            title: text_for_locale(bundle, locale, "terminal.inline_banner.shell_process.exited_prematurely"),
            icon_asset: "bundled/svg/warning.svg",
            icon_in_foreground: true,
            detail: Some(text_for_locale(bundle, locale, "terminal.inline_banner.shell_process.debug_output_visible")),
        }
    } else {
        ShellTerminatedBanner {
            style: InlineBannerStyle::LowPriority,
            title: text_for_locale(bundle, locale, "terminal.inline_banner.shell_process.exited"),
            icon_asset: "bundled/svg/info.svg",
            icon_in_foreground: false,
            detail: None,
        }
    }
}

/// The banner's title.
pub const BANNER_TITLE: &'static str = "Tmux SSH warpification has been deprecated";

/// The banner's text.
pub const BANNER_BODY: &'static str = "Warp now connects to remote sessions using the SSH extension, which is more robust than the tmux-based flow. The tmux option has been removed.";

/// The label of the link to the docs.
pub const LEARN_MORE_LABEL: &'static str = "Learn more";

/// What the user did on the banner.
#[derive(Clone, Copy, Debug, PartialEq, Eq, Structural)]
pub enum SshTmuxDeprecationBannerAction {
    Dismiss,
    LearnMore,
}

/// What the banner tells its parent.
#[derive(Clone, Copy, Debug, PartialEq, Eq, Structural)]
pub enum SshTmuxDeprecationBannerEvent {
    Dismissed,
}

/// How the banner answers an action: whether it opens the SSH docs, and the event it
/// emits after.
#[derive(Clone, Copy, Debug, PartialEq, Eq, Structural)]
pub struct BannerResponse {
    pub open_docs: bool,
    pub event: SshTmuxDeprecationBannerEvent,
}

/// The banner of one terminal session.
#[derive(Debug)]
pub struct SshTmuxDeprecationBanner {
    session_id: u64,
}

impl SshTmuxDeprecationBanner {
    /// The session the banner belongs to, as a spec value.
    pub closed spec fn session(&self) -> u64 {
        self.session_id
    }

    /// The banner of session `session_id`.
    pub fn new(session_id: u64) -> (r: SshTmuxDeprecationBanner)
        ensures
            r.session() == session_id,
    {
        SshTmuxDeprecationBanner { session_id }
    }

    /// The session the banner belongs to.
    pub fn session_id(&self) -> (r: u64)
        ensures
            r == self.session(),
    {
        self.session_id
    }

    /// Either action dismisses the banner; "learn more" opens the SSH docs first.
    pub fn handle_action(&self, action: &SshTmuxDeprecationBannerAction) -> (r: BannerResponse)
        ensures
            r.event == SshTmuxDeprecationBannerEvent::Dismissed,
            r.open_docs == (*action == SshTmuxDeprecationBannerAction::LearnMore),
    {
        match action {
            SshTmuxDeprecationBannerAction::Dismiss => BannerResponse {
                open_docs: false,
                event: SshTmuxDeprecationBannerEvent::Dismissed,
            },
            SshTmuxDeprecationBannerAction::LearnMore => BannerResponse {
                open_docs: true,
                event: SshTmuxDeprecationBannerEvent::Dismissed,
            },
        }
    }
}

} // verus!

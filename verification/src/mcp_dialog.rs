//! The confirmation dialog shown before deleting or unsharing an MCP server.

use vstd::prelude::*;

verus! {

/// What the dialog reports to its parent.
#[derive(Clone, Debug, PartialEq, Eq, Structural)]
pub enum DestructiveMCPConfirmationDialogEvent {
    Cancel,
    Confirm(DestructiveMCPConfirmationDialogVariant),
}

/// What the user did in the dialog.
#[derive(Clone, Copy, Debug, PartialEq, Eq, Structural)]
pub enum DestructiveMCPConfirmationDialogAction {
    Cancel,
    Confirm,
}

/// The destructive operation the dialog confirms.
#[derive(Clone, Copy, Debug, PartialEq, Eq, Structural)]
pub enum DestructiveMCPConfirmationDialogVariant {
    DeleteLocal,
    DeleteShared,
    Unshare,
}

/// The catalog keys of the dialog's title, description and confirm button.
#[derive(Clone, Copy, Debug, PartialEq, Eq)]
pub struct DestructiveMCPConfirmationDialogDisplayOptions {
    pub title_key: &'static str,
    pub description_key: &'static str,
    pub confirm_button_key: &'static str,
}

/// The catalog keys for each variant: (title, description, confirm button).
pub open spec fn display_keys(variant: DestructiveMCPConfirmationDialogVariant) -> (
    &'static str,
    &'static str,
    &'static str,
) {
    match variant {
        DestructiveMCPConfirmationDialogVariant::DeleteLocal => (
            "settings.mcp.confirmation.delete_local.title",
            "settings.mcp.confirmation.delete_local.description",
            "settings.mcp.edit.delete_mcp",
        ),
        DestructiveMCPConfirmationDialogVariant::DeleteShared => (
            "settings.mcp.confirmation.delete_shared.title",
            "settings.mcp.confirmation.delete_shared.description",
            "settings.mcp.edit.delete_mcp",
        ),
        DestructiveMCPConfirmationDialogVariant::Unshare => (
            "settings.mcp.confirmation.unshare.title",
            "settings.mcp.confirmation.unshare.description",
            "settings.mcp.edit.remove_from_team",
        ),
    }
}

impl DestructiveMCPConfirmationDialogDisplayOptions {
    pub fn new(
        title_key: &'static str,
        description_key: &'static str,
        confirm_button_key: &'static str,
    ) -> (r: Self)
        ensures
            r.title_key == title_key,
            r.description_key == description_key,
            r.confirm_button_key == confirm_button_key,
    {
        Self { title_key, description_key, confirm_button_key }
    }

    /// The display options of a variant.
    pub fn for_variant(variant: &DestructiveMCPConfirmationDialogVariant) -> (r: Self)
        ensures
            (r.title_key, r.description_key, r.confirm_button_key) == display_keys(*variant),
    {
        match *variant {
            DestructiveMCPConfirmationDialogVariant::DeleteLocal => Self::new(
                "settings.mcp.confirmation.delete_local.title",
                "settings.mcp.confirmation.delete_local.description",
                "settings.mcp.edit.delete_mcp",
            ),
            DestructiveMCPConfirmationDialogVariant::DeleteShared => Self::new(
                "settings.mcp.confirmation.delete_shared.title",
                "settings.mcp.confirmation.delete_shared.description",
                "settings.mcp.edit.delete_mcp",
            ),
            DestructiveMCPConfirmationDialogVariant::Unshare => Self::new(
                "settings.mcp.confirmation.unshare.title",
                "settings.mcp.confirmation.unshare.description",
                "settings.mcp.edit.remove_from_team",
            ),
        }
    }
}

/// The state of the dialog: whether it shows, and for which operation.
#[derive(Clone, Copy, Debug, PartialEq, Eq)]
pub struct DestructiveMCPConfirmationDialog {
    pub visible: bool,
    pub variant: DestructiveMCPConfirmationDialogVariant,
}

impl DestructiveMCPConfirmationDialog {
    /// A hidden dialog.
    pub fn new() -> (r: Self)
        ensures
            !r.visible,
            r.variant == DestructiveMCPConfirmationDialogVariant::DeleteLocal,
    {
        Self { visible: false, variant: DestructiveMCPConfirmationDialogVariant::DeleteLocal }
    }

    /// Shows the dialog for `variant`.
    pub fn show(&mut self, variant: DestructiveMCPConfirmationDialogVariant)
        ensures
            final(self).visible,
            final(self).variant == variant,
    {
        self.variant = variant;
        self.visible = true;
    }

    /// Hides the dialog (the original `hide`); the variant stays.
    pub fn close(&mut self)
        ensures
            !final(self).visible,
            final(self).variant == old(self).variant,
    {
        self.visible = false;
    }

    /// The catalog keys of the cancel and confirm button labels.
    pub fn button_label_keys(&self) -> (r: (&'static str, &'static str))
        ensures
            r.0 == "settings.action.cancel",
            r.1 == display_keys(self.variant).2,
    {
        let options = DestructiveMCPConfirmationDialogDisplayOptions::for_variant(&self.variant);
        ("settings.action.cancel", options.confirm_button_key)
    }

    /// The event that answers an action of the user.
    pub fn handle_action(&self, action: &DestructiveMCPConfirmationDialogAction) -> (r:
        DestructiveMCPConfirmationDialogEvent)
        ensures
            *action == DestructiveMCPConfirmationDialogAction::Cancel ==> r
                == DestructiveMCPConfirmationDialogEvent::Cancel,
            *action == DestructiveMCPConfirmationDialogAction::Confirm ==> r
                == DestructiveMCPConfirmationDialogEvent::Confirm(self.variant),
    {
        match action {
            DestructiveMCPConfirmationDialogAction::Cancel => DestructiveMCPConfirmationDialogEvent::Cancel,
            DestructiveMCPConfirmationDialogAction::Confirm => DestructiveMCPConfirmationDialogEvent::Confirm(
                self.variant,
            ),
        }
    }
}

} // verus!

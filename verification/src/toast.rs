//! The toasts shown when an operation on a Warp Drive object succeeds or fails.

use vstd::prelude::*;

use crate::catalog::CatalogBundle;
use crate::locale::LocaleId;
use crate::localization::{bundle_text, text_for_locale};
use crate::text::{ascii_lower, decimal, decimal_i64, replace_all, replace_str, to_ascii_lowercase};

verus! {

/// Who started an operation.
#[derive(Clone, Copy, Debug, PartialEq, Eq, Structural)]
pub enum InitiatedBy {
    User,
    System,
}

/// An operation on a Warp Drive object.
#[derive(Clone, Copy, Debug, PartialEq, Eq, Structural)]
pub enum ObjectOperation {
    Create { initiated_by: InitiatedBy },
    Update,
    MoveToFolder,
    MoveToDrive,
    Trash,
    Untrash,
    Leave,
    Delete { initiated_by: InitiatedBy },
    TakeEditAccess,
    UpdatePermissions,
    EmptyTrash,
}

/// How an operation ended; a denial carries the message to show.
#[derive(Clone, Debug, PartialEq, Eq)]
pub enum OperationSuccessType {
    Success,
    Failure,
    Denied(String),
    Rejection,
}

/// The kind of a Warp Drive object, as far as toasts tell kinds apart: notebooks,
/// workflows, the JSON objects holding environment variables and rules, and the rest.
#[derive(Clone, Copy, Debug, PartialEq, Eq, Structural)]
pub enum ObjectType {
    Notebook,
    Workflow,
    EnvVarCollection,
    AIFact,
    Other,
}

/// What a toast message is made of.
pub enum ToastSpec {
    /// No toast.
    NoToast,
    /// The catalog text of a key with `{object}` replaced by the object's name.
    Object(&'static str),
    /// The same, with the object's name in ASCII lower case.
    ObjectLower(&'static str),
    /// `{object}` replaced by the object's name and `{location}` by its container's.
    ObjectAndLocation(&'static str),
    /// The catalog text of a key as it is.
    Plain(&'static str),
    /// A given message.
    Message(Seq<char>),
}

/// The toast for an operation on an object of a kind.
pub open spec fn toast_spec(t: ObjectType, op: ObjectOperation, result: OperationSuccessType) -> ToastSpec {
    match (op, result) {
        (ObjectOperation::Create { initiated_by: InitiatedBy::User }, OperationSuccessType::Success) => ToastSpec::ObjectAndLocation("cloud_object.toast.saved_to"),
        (ObjectOperation::Update, OperationSuccessType::Success) => if t == ObjectType::Notebook {
            ToastSpec::NoToast
        } else {
            ToastSpec::Object("cloud_object.toast.updated")
        },
        (ObjectOperation::MoveToFolder, OperationSuccessType::Success) => ToastSpec::ObjectAndLocation("cloud_object.toast.moved_to"),
        (ObjectOperation::MoveToDrive, OperationSuccessType::Success) => ToastSpec::ObjectAndLocation("cloud_object.toast.moved_to"),
        (ObjectOperation::Trash, OperationSuccessType::Success) => ToastSpec::Object("cloud_object.toast.trashed"),
        (ObjectOperation::Untrash, OperationSuccessType::Success) => ToastSpec::Object("cloud_object.toast.restored"),
        (ObjectOperation::Leave, OperationSuccessType::Success) => ToastSpec::Object("cloud_object.toast.left"),
        (ObjectOperation::Create { initiated_by: InitiatedBy::User }, OperationSuccessType::Failure) => ToastSpec::ObjectLower("cloud_object.toast.failed_create"),
        (ObjectOperation::Create { initiated_by: InitiatedBy::User }, OperationSuccessType::Denied(message)) => ToastSpec::Message(message@),
        (ObjectOperation::Update, OperationSuccessType::Failure) => ToastSpec::ObjectLower("cloud_object.toast.failed_update"),
        (ObjectOperation::MoveToFolder, OperationSuccessType::Failure) => ToastSpec::ObjectLower("cloud_object.toast.failed_move"),
        (ObjectOperation::MoveToDrive, OperationSuccessType::Failure) => ToastSpec::ObjectLower("cloud_object.toast.failed_move"),
        (ObjectOperation::Trash, OperationSuccessType::Failure) => ToastSpec::ObjectLower("cloud_object.toast.failed_trash"),
        (ObjectOperation::Untrash, OperationSuccessType::Failure) => ToastSpec::ObjectLower("cloud_object.toast.failed_restore"),
        (ObjectOperation::Delete { initiated_by: InitiatedBy::User }, OperationSuccessType::Failure) => ToastSpec::ObjectLower("cloud_object.toast.failed_delete"),
        (ObjectOperation::Leave, OperationSuccessType::Failure) => ToastSpec::Object("cloud_object.toast.failed_leave"),
        (ObjectOperation::Update, OperationSuccessType::Rejection) => match t {
            ObjectType::Workflow => ToastSpec::Plain("cloud_object.toast.rejection.workflow"),
            ObjectType::EnvVarCollection => ToastSpec::Plain("cloud_object.toast.rejection.env_vars"),
            ObjectType::AIFact => ToastSpec::Plain("cloud_object.toast.rejection.rule"),
            _ => ToastSpec::NoToast,
        },
        (ObjectOperation::TakeEditAccess, OperationSuccessType::Failure) => ToastSpec::ObjectLower("cloud_object.toast.failed_start_editing"),
        (ObjectOperation::UpdatePermissions, OperationSuccessType::Success) => ToastSpec::ObjectLower("cloud_object.toast.updated_permissions"),
        (ObjectOperation::UpdatePermissions, OperationSuccessType::Failure) => ToastSpec::ObjectLower("cloud_object.toast.failed_update_permissions"),
        _ => ToastSpec::NoToast,
    }
}

/// The text of a toast, given the texts of the catalog in one locale.
pub open spec fn toast_text(
    b: &CatalogBundle,
    locale: LocaleId,
    spec: ToastSpec,
    name: Seq<char>,
    location: Seq<char>,
) -> Option<Seq<char>> {
    match spec {
        ToastSpec::NoToast => None,
        ToastSpec::Object(key) => Some(replace_all(bundle_text(b, locale, key@), "{object}"@, name)),
        ToastSpec::ObjectLower(key) => Some(
            replace_all(bundle_text(b, locale, key@), "{object}"@, name.map_values(|c: char| ascii_lower(c))),
        ),
        ToastSpec::ObjectAndLocation(key) => Some(
            replace_all(
                replace_all(bundle_text(b, locale, key@), "{object}"@, name),
                "{location}"@,
                location,
            ),
        ),
        ToastSpec::Plain(key) => Some(bundle_text(b, locale, key@)),
        ToastSpec::Message(m) => Some(m),
    }
}

pub open spec fn opt_string_view(o: Option<String>) -> Option<Seq<char>> {
    match o {
        Some(s) => Some(s@),
        None => None,
    }
}

/// Which toast to show for an operation, if any.
fn toast_spec_of(
    object_type: ObjectType,
    operation: &ObjectOperation,
    success_type: &OperationSuccessType,
) -> (r: (u8, &'static str, Option<String>))
    ensures
        match toast_spec(object_type, *operation, *success_type) {
            ToastSpec::NoToast => r.0 == 0,
            ToastSpec::Object(key) => r.0 == 1 && r.1 == key,
            ToastSpec::ObjectLower(key) => r.0 == 2 && r.1 == key,
            ToastSpec::ObjectAndLocation(key) => r.0 == 3 && r.1 == key,
            ToastSpec::Plain(key) => r.0 == 4 && r.1 == key,
            ToastSpec::Message(m) => r.0 == 5 && opt_string_view(r.2) == Some(m),
        },
{
    match (operation, success_type) {
        (ObjectOperation::Create { initiated_by: InitiatedBy::User }, OperationSuccessType::Success) => (3, "cloud_object.toast.saved_to", None),
        (ObjectOperation::Update, OperationSuccessType::Success) => if object_type == ObjectType::Notebook {
            (0, "", None)
        } else {
            (1, "cloud_object.toast.updated", None)
        },
        (ObjectOperation::MoveToFolder, OperationSuccessType::Success)
        | (ObjectOperation::MoveToDrive, OperationSuccessType::Success) => (3, "cloud_object.toast.moved_to", None),
        (ObjectOperation::Trash, OperationSuccessType::Success) => (1, "cloud_object.toast.trashed", None),
        (ObjectOperation::Untrash, OperationSuccessType::Success) => (1, "cloud_object.toast.restored", None),
        (ObjectOperation::Leave, OperationSuccessType::Success) => (1, "cloud_object.toast.left", None),
        (ObjectOperation::Create { initiated_by: InitiatedBy::User }, OperationSuccessType::Failure) => (2, "cloud_object.toast.failed_create", None),
        (ObjectOperation::Create { initiated_by: InitiatedBy::User }, OperationSuccessType::Denied(message)) => (5, "", Some(message.clone())),
        (ObjectOperation::Update, OperationSuccessType::Failure) => (2, "cloud_object.toast.failed_update", None),
        (ObjectOperation::MoveToFolder, OperationSuccessType::Failure)
        | (ObjectOperation::MoveToDrive, OperationSuccessType::Failure) => (2, "cloud_object.toast.failed_move", None),
        (ObjectOperation::Trash, OperationSuccessType::Failure) => (2, "cloud_object.toast.failed_trash", None),
        (ObjectOperation::Untrash, OperationSuccessType::Failure) => (2, "cloud_object.toast.failed_restore", None),
        (ObjectOperation::Delete { initiated_by: InitiatedBy::User }, OperationSuccessType::Failure) => (2, "cloud_object.toast.failed_delete", None),
        (ObjectOperation::Leave, OperationSuccessType::Failure) => (1, "cloud_object.toast.failed_leave", None),
        (ObjectOperation::Update, OperationSuccessType::Rejection) => match object_type {
            ObjectType::Workflow => (4, "cloud_object.toast.rejection.workflow", None),
            ObjectType::EnvVarCollection => (4, "cloud_object.toast.rejection.env_vars", None),
            ObjectType::AIFact => (4, "cloud_object.toast.rejection.rule", None),
            _ => (0, "", None),
        },
        (ObjectOperation::TakeEditAccess, OperationSuccessType::Failure) => (2, "cloud_object.toast.failed_start_editing", None),
        (ObjectOperation::UpdatePermissions, OperationSuccessType::Success) => (2, "cloud_object.toast.updated_permissions", None),
        (ObjectOperation::UpdatePermissions, OperationSuccessType::Failure) => (2, "cloud_object.toast.failed_update_permissions", None),
        _ => (0, "", None),
    }
}

/// The messages of the toasts shown for operations on Warp Drive objects.
pub struct CloudObjectToastMessage;

impl CloudObjectToastMessage {
    /// The toast message for an operation on an object named `object_name` in a container
    /// named `containing_object_name`, with texts in `locale`; `None` when no toast shows.
    pub fn toast_message(
        bundle: &CatalogBundle,
        locale: LocaleId,
        object_type: ObjectType,
        object_name: &str,
        containing_object_name: &str,
        operation: &ObjectOperation,
        success_type: &OperationSuccessType,
    ) -> (r: Option<String>)
        ensures
            opt_string_view(r) == toast_text(
                bundle,
                locale,
                toast_spec(object_type, *operation, *success_type),
                object_name@,
                containing_object_name@,
            ),
    {
        proof {
            reveal_strlit("{object}");
            reveal_strlit("{location}");
        }
        let (kind, key, message) = toast_spec_of(object_type, operation, success_type);
        if kind == 0 {
            None
        } else if kind == 5 {
            message
        } else if kind == 4 {
            Some(text_for_locale(bundle, locale, key))
        } else {
            let text = text_for_locale(bundle, locale, key);
            if kind == 1 {
                Some(replace_str(text.as_str(), "{object}", object_name))
            } else if kind == 2 {
                let lower = to_ascii_lowercase(object_name);
                Some(replace_str(text.as_str(), "{object}", lower.as_str()))
            } else {
                let with_object = replace_str(text.as_str(), "{object}", object_name);
                Some(replace_str(with_object.as_str(), "{location}", containing_object_name))
            }
        }
    }
}

/// The toast for a permanent deletion or for emptying the trash.
pub enum DeletionToastSpec {
    NoToast,
    /// The catalog text of a key with `{count_objects}` replaced by the object count text.
    Counted(&'static str),
    /// The catalog text of a key as it is.
    Plain(&'static str),
}

pub open spec fn deletion_toast_spec(op: ObjectOperation, result: OperationSuccessType) -> DeletionToastSpec {
    match (op, result) {
        (ObjectOperation::Delete { initiated_by: InitiatedBy::User }, OperationSuccessType::Success) => DeletionToastSpec::Counted("cloud_object.toast.deleted_forever"),
        (ObjectOperation::EmptyTrash, OperationSuccessType::Success) => DeletionToastSpec::Counted("cloud_object.toast.trash_emptied"),
        (ObjectOperation::EmptyTrash, OperationSuccessType::Failure) => DeletionToastSpec::Plain("cloud_object.toast.failed_empty_trash"),
        (ObjectOperation::EmptyTrash, OperationSuccessType::Rejection) => DeletionToastSpec::Plain("cloud_object.toast.no_objects_to_empty"),
        _ => DeletionToastSpec::NoToast,
    }
}

/// The text naming how many objects an operation touched: the singular text for one,
/// else the plural text with `{count}` replaced by the number.
pub open spec fn object_count_text(b: &CatalogBundle, locale: LocaleId, n: int) -> Seq<char> {
    if n == 1 {
        bundle_text(b, locale, "cloud_object.toast.object_count.singular"@)
    } else {
        replace_all(bundle_text(b, locale, "cloud_object.toast.object_count.plural"@), "{count}"@, decimal(n))
    }
}

impl CloudObjectToastMessage {
    /// The toast message for a permanent deletion or for emptying the trash.
    pub fn toast_deletion_confirm_message(
        bundle: &CatalogBundle,
        locale: LocaleId,
        num_objects: i32,
        operation: &ObjectOperation,
        success_type: &OperationSuccessType,
    ) -> (r: Option<String>)
        ensures
            opt_string_view(r) == match deletion_toast_spec(*operation, *success_type) {
                DeletionToastSpec::NoToast => None,
                DeletionToastSpec::Counted(key) => Some(
                    replace_all(
                        bundle_text(bundle, locale, key@),
                        "{count_objects}"@,
                        object_count_text(bundle, locale, num_objects as int),
                    ),
                ),
                DeletionToastSpec::Plain(key) => Some(bundle_text(bundle, locale, key@)),
            },
    {
        proof {
            reveal_strlit("{count}");
            reveal_strlit("{count_objects}");
        }
        let count_objects_message = if num_objects == 1 {
            text_for_locale(bundle, locale, "cloud_object.toast.object_count.singular")
        } else {
            let plural = text_for_locale(bundle, locale, "cloud_object.toast.object_count.plural");
            let count = decimal_i64(num_objects as i64);
            replace_str(plural.as_str(), "{count}", count.as_str())
        };
        match (operation, success_type) {
            (ObjectOperation::Delete { initiated_by: InitiatedBy::User }, OperationSuccessType::Success) => {
                let text = text_for_locale(bundle, locale, "cloud_object.toast.deleted_forever");
                Some(replace_str(text.as_str(), "{count_objects}", count_objects_message.as_str()))
            },
            (ObjectOperation::EmptyTrash, OperationSuccessType::Success) => {
                let text = text_for_locale(bundle, locale, "cloud_object.toast.trash_emptied");
                Some(replace_str(text.as_str(), "{count_objects}", count_objects_message.as_str()))
            },
            (ObjectOperation::EmptyTrash, OperationSuccessType::Failure) => Some(
                text_for_locale(bundle, locale, "cloud_object.toast.failed_empty_trash"),
            ),
            (ObjectOperation::EmptyTrash, OperationSuccessType::Rejection) => Some(
                text_for_locale(bundle, locale, "cloud_object.toast.no_objects_to_empty"),
            ),
            _ => None,
        }
    }
}

} // verus!

//! Semantic validation of a record, independent of parsing: the required
//! name, the allowed `Type` values, and the field each type demands.

use vstd::prelude::*;

use crate::codec::{DesktopFile, EntryView};
use crate::error::{DesktopFileError, ErrorView};
use crate::text::str_matches;

verus! {

/// The first violation a record holds, checked in this order: an empty
/// name; a `Type` outside `{Application, Link, Directory}`; an
/// `Application` without `Exec`; a `Link` without `URL`.  `None` when the
/// record is valid.
pub open spec fn validation_error(v: EntryView) -> Option<ErrorView> {
    if v.name.len() == 0 {
        Some(ErrorView::MissingField("Name"@))
    } else if v.entry_type != "Application"@ && v.entry_type != "Link"@ && v.entry_type
        != "Directory"@ {
        Some(ErrorView::InvalidValue("Type"@, v.entry_type))
    } else if v.entry_type == "Application"@ && v.exec_command is None {
        Some(ErrorView::MissingField("Exec"@))
    } else if v.entry_type == "Link"@ && v.url is None {
        Some(ErrorView::MissingField("URL"@))
    } else {
        None
    }
}

impl DesktopFile {
    /// Check the record against the semantic rules and report the first
    /// violation, in the fixed order that [`validation_error`] states.
    pub fn validate(&self) -> (r: Result<(), DesktopFileError>)
        ensures
            match r {
                Ok(_) => validation_error(self.desktop_entry@) is None,
                Err(e) => validation_error(self.desktop_entry@) == Some(e@),
            },
    {
        let e = &self.desktop_entry;
        if e.name.as_str().is_empty() {
            return Err(DesktopFileError::MissingField("Name".to_owned()));
        }
        let is_application = str_matches(e.entry_type.as_str(), "Application");
        let is_link = str_matches(e.entry_type.as_str(), "Link");
        let is_directory = str_matches(e.entry_type.as_str(), "Directory");
        if !is_application && !is_link && !is_directory {
            return Err(
                DesktopFileError::InvalidValue("Type".to_owned(), e.entry_type.clone()),
            );
        }
        if is_application && e.exec_command.is_none() {
            return Err(DesktopFileError::MissingField("Exec".to_owned()));
        }
        if is_link && e.url.is_none() {
            return Err(DesktopFileError::MissingField("URL".to_owned()));
        }
        Ok(())
    }
}

/// Law: a record with an empty name fails with the name violation first,
/// whatever its type or other fields hold.
pub proof fn lemma_empty_name_rejected_first(v: EntryView)
    requires
        v.name.len() == 0,
    ensures
        validation_error(v) == Some(ErrorView::MissingField("Name"@)),
{
}

/// Law: an `Application` record without a command fails with
/// `MissingField("Exec")`, a `Link` record without a URL fails with
/// `MissingField("URL")`, and a `Directory` record needs neither.
pub proof fn lemma_type_conditional_validity(v: EntryView)
    requires
        v.name.len() > 0,
    ensures
        v.entry_type == "Application"@ && v.exec_command is None ==> validation_error(v) == Some(
            ErrorView::MissingField("Exec"@),
        ),
        v.entry_type == "Link"@ && v.url is None ==> validation_error(v) == Some(
            ErrorView::MissingField("URL"@),
        ),
        v.entry_type == "Directory"@ ==> validation_error(v) is None,
{
    reveal_strlit("Application");
    reveal_strlit("Link");
    reveal_strlit("Directory");
    assert("Application"@.len() != "Link"@.len());
    assert("Application"@.len() != "Directory"@.len());
    assert("Link"@.len() != "Directory"@.len());
}

} // verus!

//! The descriptor codec: the record type for one application-launcher
//! descriptor, a parser for the sectioned key=value text format, and a
//! serializer back to text.
//!
//! The grammar is line-oriented and permissive: blank lines and `#` comments
//! are ignored, `[section]` lines switch the current section, and only
//! `key=value` lines seen while the `Desktop Entry` section is current are
//! kept, a later duplicate key overwriting an earlier one.  Parsing fails
//! only when the required `Name` key is absent.

use vstd::prelude::*;

use crate::error::{DesktopFileError, ErrorView};
use crate::text::{
    first_pos, lemma_first_pos_absent, lemma_first_pos_of_witness, lemma_first_pos_properties,
    range_matches, str_chars, str_matches, trim_range, trimmed,
};

verus! {

/// The abstract value of a [`DesktopEntry`]: every field of the fixed key
/// set, as character sequences.
pub struct EntryView {
    pub entry_type: Seq<char>,
    pub version: Option<Seq<char>>,
    pub name: Seq<char>,
    pub generic_name: Option<Seq<char>>,
    pub comment: Option<Seq<char>>,
    pub icon: Option<Seq<char>>,
    pub exec_command: Option<Seq<char>>,
    pub path: Option<Seq<char>>,
    pub terminal: Option<bool>,
    pub categories: Option<Seq<char>>,
    pub keywords: Option<Seq<char>>,
    pub startup_wm_class: Option<Seq<char>>,
    pub url: Option<Seq<char>>,
    pub mime_type: Option<Seq<char>>,
    pub hidden: Option<bool>,
    pub only_show_in: Option<Seq<char>>,
    pub not_show_in: Option<Seq<char>>,
    pub dbus_activatable: Option<bool>,
    pub try_exec: Option<Seq<char>>,
    pub actions: Option<Seq<char>>,
}

/// One parsed or constructed descriptor record.  `entry_type` and `name` are
/// always present; every other field of the fixed key set is optional.
#[derive(Debug, Clone)]
pub struct DesktopEntry {
    pub entry_type: String,
    pub version: Option<String>,
    pub name: String,
    pub generic_name: Option<String>,
    pub comment: Option<String>,
    pub icon: Option<String>,
    pub exec_command: Option<String>,
    pub path: Option<String>,
    pub terminal: Option<bool>,
    pub categories: Option<String>,
    pub keywords: Option<String>,
    pub startup_wm_class: Option<String>,
    pub url: Option<String>,
    pub mime_type: Option<String>,
    pub hidden: Option<bool>,
    pub only_show_in: Option<String>,
    pub not_show_in: Option<String>,
    pub dbus_activatable: Option<bool>,
    pub try_exec: Option<String>,
    pub actions: Option<String>,
}

impl View for DesktopEntry {
    type V = EntryView;

    open spec fn view(&self) -> EntryView {
        EntryView {
            entry_type: self.entry_type@,
            version: self.version.deep_view(),
            name: self.name@,
            generic_name: self.generic_name.deep_view(),
            comment: self.comment.deep_view(),
            icon: self.icon.deep_view(),
            exec_command: self.exec_command.deep_view(),
            path: self.path.deep_view(),
            terminal: self.terminal,
            categories: self.categories.deep_view(),
            keywords: self.keywords.deep_view(),
            startup_wm_class: self.startup_wm_class.deep_view(),
            url: self.url.deep_view(),
            mime_type: self.mime_type.deep_view(),
            hidden: self.hidden,
            only_show_in: self.only_show_in.deep_view(),
            not_show_in: self.not_show_in.deep_view(),
            dbus_activatable: self.dbus_activatable,
            try_exec: self.try_exec.deep_view(),
            actions: self.actions.deep_view(),
        }
    }
}

/// A descriptor record together with an optional opaque icon payload.
#[derive(Debug, Clone)]
pub struct DesktopFile {
    pub desktop_entry: DesktopEntry,
    pub icon_data: Option<Vec<u8>>,
}

/// The working state of a scan over the descriptor text: whether the
/// `Desktop Entry` section is current, and the raw value last seen for each
/// key of the fixed set.
pub struct ScanState {
    pub in_entry_section: bool,
    pub f_type: Option<Seq<char>>,
    pub f_name: Option<Seq<char>>,
    pub f_version: Option<Seq<char>>,
    pub f_generic_name: Option<Seq<char>>,
    pub f_comment: Option<Seq<char>>,
    pub f_icon: Option<Seq<char>>,
    pub f_exec_command: Option<Seq<char>>,
    pub f_path: Option<Seq<char>>,
    pub f_terminal: Option<Seq<char>>,
    pub f_categories: Option<Seq<char>>,
    pub f_keywords: Option<Seq<char>>,
    pub f_startup_wm_class: Option<Seq<char>>,
    pub f_url: Option<Seq<char>>,
    pub f_mime_type: Option<Seq<char>>,
    pub f_hidden: Option<Seq<char>>,
    pub f_only_show_in: Option<Seq<char>>,
    pub f_not_show_in: Option<Seq<char>>,
    pub f_dbus_activatable: Option<Seq<char>>,
    pub f_try_exec: Option<Seq<char>>,
    pub f_actions: Option<Seq<char>>,
}

/// The state before any line has been read.
pub open spec fn start_state() -> ScanState {
    ScanState {
        in_entry_section: false,
        f_type: None,
        f_name: None,
        f_version: None,
        f_generic_name: None,
        f_comment: None,
        f_icon: None,
        f_exec_command: None,
        f_path: None,
        f_terminal: None,
        f_categories: None,
        f_keywords: None,
        f_startup_wm_class: None,
        f_url: None,
        f_mime_type: None,
        f_hidden: None,
        f_only_show_in: None,
        f_not_show_in: None,
        f_dbus_activatable: None,
        f_try_exec: None,
        f_actions: None,
    }
}

/// Store `value` under `key` if the key belongs to the fixed set,
/// overwriting any earlier value (last-wins); an unrecognized key changes
/// nothing.
pub open spec fn assign_field(st: ScanState, key: Seq<char>, value: Seq<char>) -> ScanState {
    if key == "Type"@ {
        ScanState { f_type: Some(value), ..st }
    } else if key == "Name"@ {
        ScanState { f_name: Some(value), ..st }
    } else if key == "Version"@ {
        ScanState { f_version: Some(value), ..st }
    } else if key == "GenericName"@ {
        ScanState { f_generic_name: Some(value), ..st }
    } else if key == "Comment"@ {
        ScanState { f_comment: Some(value), ..st }
    } else if key == "Icon"@ {
        ScanState { f_icon: Some(value), ..st }
    } else if key == "Exec"@ {
        ScanState { f_exec_command: Some(value), ..st }
    } else if key == "Path"@ {
        ScanState { f_path: Some(value), ..st }
    } else if key == "Terminal"@ {
        ScanState { f_terminal: Some(value), ..st }
    } else if key == "Categories"@ {
        ScanState { f_categories: Some(value), ..st }
    } else if key == "Keywords"@ {
        ScanState { f_keywords: Some(value), ..st }
    } else if key == "StartupWMClass"@ {
        ScanState { f_startup_wm_class: Some(value), ..st }
    } else if key == "URL"@ {
        ScanState { f_url: Some(value), ..st }
    } else if key == "MimeType"@ {
        ScanState { f_mime_type: Some(value), ..st }
    } else if key == "Hidden"@ {
        ScanState { f_hidden: Some(value), ..st }
    } else if key == "OnlyShowIn"@ {
        ScanState { f_only_show_in: Some(value), ..st }
    } else if key == "NotShowIn"@ {
        ScanState { f_not_show_in: Some(value), ..st }
    } else if key == "DBusActivatable"@ {
        ScanState { f_dbus_activatable: Some(value), ..st }
    } else if key == "TryExec"@ {
        ScanState { f_try_exec: Some(value), ..st }
    } else if key == "Actions"@ {
        ScanState { f_actions: Some(value), ..st }
    } else {
        st
    }
}

/// How one line changes the scan state: blank lines and `#` comments are
/// skipped, a `[section]` line records whether the new section is
/// `Desktop Entry`, and a `key=value` line inside that section stores the
/// trimmed value under the trimmed key.
pub open spec fn line_step(st: ScanState, line: Seq<char>) -> ScanState {
    let t = trimmed(line);
    if t.len() == 0 {
        st
    } else if t[0] == '#' {
        st
    } else if t[0] == '[' && t[t.len() - 1] == ']' {
        ScanState { in_entry_section: t.subrange(1, t.len() - 1) == "Desktop Entry"@, ..st }
    } else {
        match first_pos(t, '=') {
            None => st,
            Some(i) => if st.in_entry_section {
                assign_field(st, trimmed(t.subrange(0, i)), trimmed(t.subrange(i + 1, t.len() as int)))
            } else {
                st
            },
        }
    }
}

/// Scan the text line by line, lines being separated by `'\n'`.
pub open spec fn scan(text: Seq<char>, st: ScanState) -> ScanState
    decreases text.len(),
    via scan_decreases
{
    if text.len() == 0 {
        st
    } else {
        match first_pos(text, '\n') {
            None => line_step(st, text),
            Some(i) => scan(
                text.subrange(i + 1, text.len() as int),
                line_step(st, text.subrange(0, i)),
            ),
        }
    }
}

#[via_fn]
proof fn scan_decreases(text: Seq<char>, st: ScanState) {
    lemma_first_pos_properties(text, '\n');
}

/// The record read off a finished scan state: `Type` defaults to
/// `Application`, a boolean field is `true` exactly when its raw value is
/// the literal string `true`, and every other field is kept as scanned.
pub open spec fn entry_of_state(st: ScanState) -> EntryView {
    EntryView {
        entry_type: match st.f_type {
            Some(v) => v,
            None => "Application"@,
        },
        name: match st.f_name {
            Some(v) => v,
            None => Seq::empty(),
        },
        version: st.f_version,
        generic_name: st.f_generic_name,
        comment: st.f_comment,
        icon: st.f_icon,
        exec_command: st.f_exec_command,
        path: st.f_path,
        terminal: match st.f_terminal {
            Some(v) => Some(v == "true"@),
            None => None,
        },
        categories: st.f_categories,
        keywords: st.f_keywords,
        startup_wm_class: st.f_startup_wm_class,
        url: st.f_url,
        mime_type: st.f_mime_type,
        hidden: match st.f_hidden {
            Some(v) => Some(v == "true"@),
            None => None,
        },
        only_show_in: st.f_only_show_in,
        not_show_in: st.f_not_show_in,
        dbus_activatable: match st.f_dbus_activatable {
            Some(v) => Some(v == "true"@),
            None => None,
        },
        try_exec: st.f_try_exec,
        actions: st.f_actions,
    }
}

/// What parsing a descriptor text yields: the record, or nothing when the
/// required `Name` key was never seen in the `Desktop Entry` section.
pub open spec fn parse_desc(text: Seq<char>) -> Option<EntryView> {
    let st = scan(text, start_state());
    match st.f_name {
        None => None,
        Some(_) => Some(entry_of_state(st)),
    }
}

/// The parser's working storage: one optional raw string per key of the
/// fixed set, plus whether the `Desktop Entry` section is current.
struct RawFields {
    in_entry_section: bool,
    f_type: Option<String>,
    f_name: Option<String>,
    f_version: Option<String>,
    f_generic_name: Option<String>,
    f_comment: Option<String>,
    f_icon: Option<String>,
    f_exec_command: Option<String>,
    f_path: Option<String>,
    f_terminal: Option<String>,
    f_categories: Option<String>,
    f_keywords: Option<String>,
    f_startup_wm_class: Option<String>,
    f_url: Option<String>,
    f_mime_type: Option<String>,
    f_hidden: Option<String>,
    f_only_show_in: Option<String>,
    f_not_show_in: Option<String>,
    f_dbus_activatable: Option<String>,
    f_try_exec: Option<String>,
    f_actions: Option<String>,
}

impl View for RawFields {
    type V = ScanState;

    closed spec fn view(&self) -> ScanState {
        ScanState {
            in_entry_section: self.in_entry_section,
            f_type: self.f_type.deep_view(),
            f_name: self.f_name.deep_view(),
            f_version: self.f_version.deep_view(),
            f_generic_name: self.f_generic_name.deep_view(),
            f_comment: self.f_comment.deep_view(),
            f_icon: self.f_icon.deep_view(),
            f_exec_command: self.f_exec_command.deep_view(),
            f_path: self.f_path.deep_view(),
            f_terminal: self.f_terminal.deep_view(),
            f_categories: self.f_categories.deep_view(),
            f_keywords: self.f_keywords.deep_view(),
            f_startup_wm_class: self.f_startup_wm_class.deep_view(),
            f_url: self.f_url.deep_view(),
            f_mime_type: self.f_mime_type.deep_view(),
            f_hidden: self.f_hidden.deep_view(),
            f_only_show_in: self.f_only_show_in.deep_view(),
            f_not_show_in: self.f_not_show_in.deep_view(),
            f_dbus_activatable: self.f_dbus_activatable.deep_view(),
            f_try_exec: self.f_try_exec.deep_view(),
            f_actions: self.f_actions.deep_view(),
        }
    }
}

/// Store the value spelled by `content[vlo..vhi]` under the key spelled by
/// `chars[klo..khi]`, exactly as [`assign_field`] describes.
fn assign_range(
    raw: &mut RawFields,
    chars: &Vec<char>,
    content: &str,
    klo: usize,
    khi: usize,
    vlo: usize,
    vhi: usize,
)
    requires
        chars@ == content@,
        klo <= khi <= chars@.len(),
        vlo <= vhi <= chars@.len(),
    ensures
        final(raw)@ == assign_field(
            old(raw)@,
            chars@.subrange(klo as int, khi as int),
            chars@.subrange(vlo as int, vhi as int),
        ),
{
    let value = content.substring_char(vlo, vhi).to_owned();
    if range_matches(chars, klo, khi, "Type") {
        raw.f_type = Some(value);
    } else if range_matches(chars, klo, khi, "Name") {
        raw.f_name = Some(value);
    } else if range_matches(chars, klo, khi, "Version") {
        raw.f_version = Some(value);
    } else if range_matches(chars, klo, khi, "GenericName") {
        raw.f_generic_name = Some(value);
    } else if range_matches(chars, klo, khi, "Comment") {
        raw.f_comment = Some(value);
    } else if range_matches(chars, klo, khi, "Icon") {
        raw.f_icon = Some(value);
    } else if range_matches(chars, klo, khi, "Exec") {
        raw.f_exec_command = Some(value);
    } else if range_matches(chars, klo, khi, "Path") {
        raw.f_path = Some(value);
    } else if range_matches(chars, klo, khi, "Terminal") {
        raw.f_terminal = Some(value);
    } else if range_matches(chars, klo, khi, "Categories") {
        raw.f_categories = Some(value);
    } else if range_matches(chars, klo, khi, "Keywords") {
        raw.f_keywords = Some(value);
    } else if range_matches(chars, klo, khi, "StartupWMClass") {
        raw.f_startup_wm_class = Some(value);
    } else if range_matches(chars, klo, khi, "URL") {
        raw.f_url = Some(value);
    } else if range_matches(chars, klo, khi, "MimeType") {
        raw.f_mime_type = Some(value);
    } else if range_matches(chars, klo, khi, "Hidden") {
        raw.f_hidden = Some(value);
    } else if range_matches(chars, klo, khi, "OnlyShowIn") {
        raw.f_only_show_in = Some(value);
    } else if range_matches(chars, klo, khi, "NotShowIn") {
        raw.f_not_show_in = Some(value);
    } else if range_matches(chars, klo, khi, "DBusActivatable") {
        raw.f_dbus_activatable = Some(value);
    } else if range_matches(chars, klo, khi, "TryExec") {
        raw.f_try_exec = Some(value);
    } else if range_matches(chars, klo, khi, "Actions") {
        raw.f_actions = Some(value);
    }
}

/// How a boolean field is rendered: the literal `true` or `false`.
pub open spec fn bool_text(b: bool) -> Seq<char> {
    if b {
        "true"@
    } else {
        "false"@
    }
}

/// The line emitted for an optional string field: nothing when the field is
/// absent, else the key (with its `=`), the value and a newline.
pub open spec fn opt_line(key: Seq<char>, v: Option<Seq<char>>) -> Seq<char> {
    match v {
        None => Seq::empty(),
        Some(s) => key + s + "\n"@,
    }
}

/// The line emitted for an optional boolean field.
pub open spec fn opt_bool_line(key: Seq<char>, v: Option<bool>) -> Seq<char> {
    match v {
        None => Seq::empty(),
        Some(b) => key + bool_text(b) + "\n"@,
    }
}

/// The descriptor text serialized from a record: the section header, then
/// `Type` and `Name` unconditionally, then each optional field in a fixed,
/// stable order, one line per present field.
pub open spec fn serialized(v: EntryView) -> Seq<char> {
    "[Desktop Entry]\n"@ + "Type="@ + v.entry_type + "\n"@ + "Name="@ + v.name + "\n"@ + opt_line(
        "Version="@,
        v.version,
    ) + opt_line("GenericName="@, v.generic_name) + opt_line("Comment="@, v.comment) + opt_line(
        "Icon="@,
        v.icon,
    ) + opt_line("Exec="@, v.exec_command) + opt_line("Path="@, v.path) + opt_bool_line(
        "Terminal="@,
        v.terminal,
    ) + opt_line("Categories="@, v.categories) + opt_line("Keywords="@, v.keywords) + opt_line(
        "StartupWMClass="@,
        v.startup_wm_class,
    ) + opt_line("URL="@, v.url) + opt_line("MimeType="@, v.mime_type) + opt_bool_line(
        "Hidden="@,
        v.hidden,
    ) + opt_line("OnlyShowIn="@, v.only_show_in) + opt_line("NotShowIn="@, v.not_show_in)
        + opt_bool_line("DBusActivatable="@, v.dbus_activatable) + opt_line(
        "TryExec="@,
        v.try_exec,
    ) + opt_line("Actions="@, v.actions)
}


proof fn lemma_assoc3(a: Seq<char>, b: Seq<char>, c: Seq<char>, d: Seq<char>)
    ensures
        ((a + b) + c) + d == a + ((b + c) + d),
{
    assert(((a + b) + c) + d =~= a + ((b + c) + d));
}

proof fn lemma_add_empty(a: Seq<char>)
    ensures
        a + Seq::<char>::empty() == a,
{
    assert(a + Seq::<char>::empty() =~= a);
}


/// Append one `key=value` line for an optional string field, or nothing
/// when the field is absent.
fn append_opt_line(out: &mut String, key: &str, v: &Option<String>)
    ensures
        final(out)@ == old(out)@ + opt_line(key@, v.deep_view()),
{
    let ghost p = out@;
    if let Some(s) = v {
        out.append(key);
        out.append(s.as_str());
        out.append("\n");
        proof {
            lemma_assoc3(p, key@, s@, "\n"@);
        }
    } else {
        proof {
            lemma_add_empty(p);
        }
    }
}

/// Append one `key=true` or `key=false` line for an optional boolean field,
/// or nothing when the field is absent.
fn append_opt_bool_line(out: &mut String, key: &str, v: &Option<bool>)
    ensures
        final(out)@ == old(out)@ + opt_bool_line(key@, *v),
{
    let ghost p = out@;
    if let Some(b) = v {
        out.append(key);
        out.append(if *b {
            "true"
        } else {
            "false"
        });
        out.append("\n");
        proof {
            lemma_assoc3(p, key@, bool_text(*b), "\n"@);
        }
    } else {
        proof {
            lemma_add_empty(p);
        }
    }
}

impl DesktopFile {
    /// A fresh record for an application with the given name and command:
    /// `Type` is `Application`, `Version` is `1.0`, the boolean fields are
    /// explicitly `false`, and every other optional field is absent.
    pub fn new(name: String, exec: String) -> (r: DesktopFile)
        ensures
            r.desktop_entry@ == (EntryView {
                entry_type: "Application"@,
                version: Some("1.0"@),
                name: name@,
                generic_name: None,
                comment: None,
                icon: None,
                exec_command: Some(exec@),
                path: None,
                terminal: Some(false),
                categories: None,
                keywords: None,
                startup_wm_class: None,
                url: None,
                mime_type: None,
                hidden: Some(false),
                only_show_in: None,
                not_show_in: None,
                dbus_activatable: Some(false),
                try_exec: None,
                actions: None,
            }),
            r.icon_data is None,
    {
        DesktopFile {
            desktop_entry: DesktopEntry {
                entry_type: "Application".to_owned(),
                version: Some("1.0".to_owned()),
                name,
                generic_name: None,
                comment: None,
                icon: None,
                exec_command: Some(exec),
                path: None,
                terminal: Some(false),
                categories: None,
                keywords: None,
                startup_wm_class: None,
                url: None,
                mime_type: None,
                hidden: Some(false),
                only_show_in: None,
                not_show_in: None,
                dbus_activatable: Some(false),
                try_exec: None,
                actions: None,
            },
            icon_data: None,
        }
    }

    /// Parse descriptor text into a record.  Succeeds on exactly the texts
    /// in which a scan of the `Desktop Entry` section finds a `Name` key;
    /// on the rest it fails with `MissingField("Name")`.
    pub fn from_string(content: &str) -> (r: Result<DesktopFile, DesktopFileError>)
        ensures
            match r {
                Ok(f) => parse_desc(content@) == Some(f.desktop_entry@) && f.icon_data is None,
                Err(e) => parse_desc(content@) is None && e@ == ErrorView::MissingField("Name"@),
            },
    {
        let chars = str_chars(content);
        let n = chars.len();
        let mut raw = RawFields {
            in_entry_section: false,
            f_type: None,
            f_name: None,
            f_version: None,
            f_generic_name: None,
            f_comment: None,
            f_icon: None,
            f_exec_command: None,
            f_path: None,
            f_terminal: None,
            f_categories: None,
            f_keywords: None,
            f_startup_wm_class: None,
            f_url: None,
            f_mime_type: None,
            f_hidden: None,
            f_only_show_in: None,
            f_not_show_in: None,
            f_dbus_activatable: None,
            f_try_exec: None,
            f_actions: None,
        };
        proof {
            assert(raw@ == start_state());
            assert(content@.subrange(0, n as int) =~= content@);
        }
        let mut pos: usize = 0;
        while pos < n
            invariant
                pos <= n,
                n == chars@.len(),
                chars@ == content@,
                scan(content@, start_state()) == scan(
                    content@.subrange(pos as int, n as int),
                    raw@,
                ),
            decreases n - pos,
        {
            let ghost st0 = raw@;
            let ghost rest = content@.subrange(pos as int, n as int);
            let mut j = pos;
            while j < n && chars[j] != '\n'
                invariant
                    pos <= j <= n,
                    n == chars@.len(),
                    chars@ == content@,
                    forall|k: int| pos <= k < j ==> chars@[k] != '\n',
                decreases n - j,
            {
                j = j + 1;
            }
            let ghost line = content@.subrange(pos as int, j as int);
            proof {
                if j < n {
                    assert(rest[j - pos] == '\n');
                    lemma_first_pos_of_witness(rest, '\n', j - pos);
                } else {
                    lemma_first_pos_absent(rest, '\n');
                }
                assert(rest.subrange(0, j - pos) =~= line);
            }
            let (lo, hi) = trim_range(&chars, pos, j);
            let ghost t = trimmed(line);
            proof {
                assert(t == content@.subrange(lo as int, hi as int));
            }
            if lo == hi {
                proof {
                    assert(t.len() == 0);
                    assert(line_step(st0, line) == raw@);
                }
            } else if chars[lo] == '#' {
                proof {
                    assert(t[0] == '#');
                    assert(line_step(st0, line) == raw@);
                }
            } else if chars[lo] == '[' && chars[hi - 1] == ']' {
                let is_de = range_matches(&chars, lo + 1, hi - 1, "Desktop Entry");
                raw.in_entry_section = is_de;
                proof {
                    assert(t[0] == '[');
                    assert(t[t.len() - 1] == ']');
                    assert(t.subrange(1, t.len() - 1) =~= content@.subrange(
                        lo + 1,
                        hi - 1,
                    ));
                    assert(line_step(st0, line) == raw@);
                }
            } else {
                let mut k = lo;
                while k < hi && chars[k] != '='
                    invariant
                        lo <= k <= hi <= n,
                        n == chars@.len(),
                        chars@ == content@,
                        forall|m: int| lo <= m < k ==> chars@[m] != '=',
                    decreases hi - k,
                {
                    k = k + 1;
                }
                if k < hi {
                    proof {
                        assert(t[k - lo] == '=');
                        lemma_first_pos_of_witness(t, '=', k - lo);
                    }
                    if raw.in_entry_section {
                        let (klo, khi) = trim_range(&chars, lo, k);
                        let (vlo, vhi) = trim_range(&chars, k + 1, hi);
                        assign_range(&mut raw, &chars, content, klo, khi, vlo, vhi);
                        proof {
                            assert(t.subrange(0, k - lo) =~= content@.subrange(
                                lo as int,
                                k as int,
                            ));
                            assert(t.subrange(k - lo + 1, t.len() as int) =~= content@.subrange(
                                k + 1,
                                hi as int,
                            ));
                            assert(line_step(st0, line) == raw@);
                        }
                    } else {
                        proof {
                            assert(line_step(st0, line) == raw@);
                        }
                    }
                } else {
                    proof {
                        lemma_first_pos_absent(t, '=');
                        assert(line_step(st0, line) == raw@);
                    }
                }
            }
            proof {
                if j < n {
                    assert(rest.subrange(j - pos + 1, rest.len() as int) =~= content@.subrange(
                        j + 1,
                        n as int,
                    ));
                    assert(scan(rest, st0) == scan(content@.subrange(j + 1, n as int), raw@));
                } else {
                    assert(rest == line);
                    assert(scan(rest, st0) == raw@);
                    assert(content@.subrange(n as int, n as int).len() == 0);
                }
            }
            pos = if j < n {
                j + 1
            } else {
                n
            };
        }
        let ghost st = raw@;
        proof {
            assert(content@.subrange(n as int, n as int).len() == 0);
            assert(scan(content@, start_state()) == st);
        }
        let RawFields {
            in_entry_section: _,
            f_type,
            f_name,
            f_version,
            f_generic_name,
            f_comment,
            f_icon,
            f_exec_command,
            f_path,
            f_terminal,
            f_categories,
            f_keywords,
            f_startup_wm_class,
            f_url,
            f_mime_type,
            f_hidden,
            f_only_show_in,
            f_not_show_in,
            f_dbus_activatable,
            f_try_exec,
            f_actions,
        } = raw;
        let name = match f_name {
            Some(nm) => nm,
            None => {
                return Err(DesktopFileError::MissingField("Name".to_owned()));
            },
        };
        let entry = DesktopEntry {
            entry_type: match f_type {
                Some(v) => v,
                None => "Application".to_owned(),
            },
            version: f_version,
            name,
            generic_name: f_generic_name,
            comment: f_comment,
            icon: f_icon,
            exec_command: f_exec_command,
            path: f_path,
            terminal: match f_terminal {
                Some(v) => Some(str_matches(v.as_str(), "true")),
                None => None,
            },
            categories: f_categories,
            keywords: f_keywords,
            startup_wm_class: f_startup_wm_class,
            url: f_url,
            mime_type: f_mime_type,
            hidden: match f_hidden {
                Some(v) => Some(str_matches(v.as_str(), "true")),
                None => None,
            },
            only_show_in: f_only_show_in,
            not_show_in: f_not_show_in,
            dbus_activatable: match f_dbus_activatable {
                Some(v) => Some(str_matches(v.as_str(), "true")),
                None => None,
            },
            try_exec: f_try_exec,
            actions: f_actions,
        };
        proof {
            assert(entry@ == entry_of_state(st));
        }
        Ok(DesktopFile { desktop_entry: entry, icon_data: None })
    }

    /// Serialize the record to descriptor text.
    pub fn to_string(&self) -> (r: String)
        ensures
            r@ == serialized(self.desktop_entry@),
    {
        let e = &self.desktop_entry;
        let mut out = "[Desktop Entry]\n".to_owned();
        out.append("Type=");
        out.append(e.entry_type.as_str());
        out.append("\n");
        out.append("Name=");
        out.append(e.name.as_str());
        out.append("\n");
        append_opt_line(&mut out, "Version=", &e.version);
        append_opt_line(&mut out, "GenericName=", &e.generic_name);
        append_opt_line(&mut out, "Comment=", &e.comment);
        append_opt_line(&mut out, "Icon=", &e.icon);
        append_opt_line(&mut out, "Exec=", &e.exec_command);
        append_opt_line(&mut out, "Path=", &e.path);
        append_opt_bool_line(&mut out, "Terminal=", &e.terminal);
        append_opt_line(&mut out, "Categories=", &e.categories);
        append_opt_line(&mut out, "Keywords=", &e.keywords);
        append_opt_line(&mut out, "StartupWMClass=", &e.startup_wm_class);
        append_opt_line(&mut out, "URL=", &e.url);
        append_opt_line(&mut out, "MimeType=", &e.mime_type);
        append_opt_bool_line(&mut out, "Hidden=", &e.hidden);
        append_opt_line(&mut out, "OnlyShowIn=", &e.only_show_in);
        append_opt_line(&mut out, "NotShowIn=", &e.not_show_in);
        append_opt_bool_line(&mut out, "DBusActivatable=", &e.dbus_activatable);
        append_opt_line(&mut out, "TryExec=", &e.try_exec);
        append_opt_line(&mut out, "Actions=", &e.actions);
        proof {
            assert(out@ == serialized(e@));
        }
        out
    }
}

/// Law: a later value stored under a key overwrites an earlier one: within
/// the section, the last occurrence of a key wins.
pub proof fn lemma_last_wins(st: ScanState, key: Seq<char>, v1: Seq<char>, v2: Seq<char>)
    ensures
        assign_field(assign_field(st, key, v1), key, v2) == assign_field(st, key, v2),
{
}

/// Law: the boolean fields are tri-state.  An absent key stays absent; a
/// stored value is read as `true` exactly when it is the literal string
/// `true`, and any other stored value is read as `false`.
pub proof fn lemma_boolean_permissiveness(st: ScanState)
    ensures
        st.f_terminal is None ==> entry_of_state(st).terminal is None,
        st.f_terminal matches Some(v) ==> entry_of_state(st).terminal == Some(v == "true"@),
        st.f_hidden is None ==> entry_of_state(st).hidden is None,
        st.f_hidden matches Some(v) ==> entry_of_state(st).hidden == Some(v == "true"@),
        st.f_dbus_activatable is None ==> entry_of_state(st).dbus_activatable is None,
        st.f_dbus_activatable matches Some(v) ==> entry_of_state(st).dbus_activatable == Some(
            v == "true"@,
        ),
{
}

} // verus!

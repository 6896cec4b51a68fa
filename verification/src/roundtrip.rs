//! The round-trip law of the codec: parsing a serialized record returns the
//! record unchanged, field for field, whenever the record's values are safe
//! for the line-oriented format.

use vstd::prelude::*;

use crate::codec::{
    assign_field, bool_text, entry_of_state, line_step, opt_bool_line, opt_line, parse_desc, scan,
    serialized, start_state, EntryView, ScanState,
};
use crate::text::{
    free_of, is_space, lemma_first_pos_of_witness, lemma_trim_noop, trimmed,
};

verus! {

/// A value safe for round-tripping: it holds no newline and no `=`, and
/// neither starts nor ends with whitespace (else parsing would trim it).
pub open spec fn clean_text(s: Seq<char>) -> bool {
    &&& free_of(s, '\n')
    &&& free_of(s, '=')
    &&& s.len() == 0 || (!is_space(s[0]) && !is_space(s[s.len() - 1]))
}

/// An optional value that is absent or safe for round-tripping.
pub open spec fn clean_opt(o: Option<Seq<char>>) -> bool {
    match o {
        None => true,
        Some(s) => clean_text(s),
    }
}

/// A record whose every string field is safe for round-tripping.
pub open spec fn round_trippable(v: EntryView) -> bool {
    &&& clean_text(v.entry_type)
    &&& clean_text(v.name)
    &&& clean_opt(v.version)
    &&& clean_opt(v.generic_name)
    &&& clean_opt(v.comment)
    &&& clean_opt(v.icon)
    &&& clean_opt(v.exec_command)
    &&& clean_opt(v.path)
    &&& clean_opt(v.categories)
    &&& clean_opt(v.keywords)
    &&& clean_opt(v.startup_wm_class)
    &&& clean_opt(v.url)
    &&& clean_opt(v.mime_type)
    &&& clean_opt(v.only_show_in)
    &&& clean_opt(v.not_show_in)
    &&& clean_opt(v.try_exec)
    &&& clean_opt(v.actions)
}

/// Scanning text that starts with a newline-free line first applies that
/// line, then scans the rest.
proof fn lemma_scan_line(st: ScanState, line: Seq<char>, rest: Seq<char>)
    requires
        free_of(line, '\n'),
    ensures
        scan(line + "\n"@ + rest, st) == scan(rest, line_step(st, line)),
{
    reveal_strlit("\n");
    let w = line + "\n"@ + rest;
    assert(w[line.len() as int] == '\n');
    assert forall|j: int| 0 <= j < line.len() implies w[j] != '\n' by {
        assert(w[j] == line[j]);
    }
    lemma_first_pos_of_witness(w, '\n', line.len() as int);
    assert(w.subrange(0, line.len() as int) =~= line);
    assert(w.subrange(line.len() as int + 1, w.len() as int) =~= rest);
}

/// A `key=value` line with a clean key and a clean value, seen while the
/// `Desktop Entry` section is current, stores the value under the key.
proof fn lemma_line_step_kv(st: ScanState, key: Seq<char>, value: Seq<char>)
    requires
        st.in_entry_section,
        key.len() > 0,
        key[0] != '#',
        key[0] != '[',
        !is_space(key[0]),
        !is_space(key[key.len() - 1]),
        free_of(key, '='),
        value.len() == 0 || (!is_space(value[0]) && !is_space(value[value.len() - 1])),
    ensures
        line_step(st, key + "="@ + value) == assign_field(st, key, value),
{
    reveal_strlit("=");
    let line = key + "="@ + value;
    assert(line[0] == key[0]);
    if value.len() > 0 {
        assert(line[line.len() - 1] == value[value.len() - 1]);
    } else {
        assert(line[line.len() - 1] == '=');
    }
    lemma_trim_noop(line);
    let t = trimmed(line);
    assert(t == line);
    assert(t[key.len() as int] == '=');
    assert forall|j: int| 0 <= j < key.len() implies t[j] != '=' by {
        assert(t[j] == key[j]);
    }
    lemma_first_pos_of_witness(t, '=', key.len() as int);
    assert(t.subrange(0, key.len() as int) =~= key);
    assert(t.subrange(key.len() as int + 1, t.len() as int) =~= value);
    lemma_trim_noop(key);
    lemma_trim_noop(value);
}

/// Scanning text that starts with a clean `key=value` line stores the value
/// and goes on with the rest of the text.
proof fn lemma_scan_kv_line(st: ScanState, key: Seq<char>, value: Seq<char>, rest: Seq<char>)
    requires
        st.in_entry_section,
        key.len() > 0,
        key[0] != '#',
        key[0] != '[',
        !is_space(key[0]),
        !is_space(key[key.len() - 1]),
        free_of(key, '='),
        free_of(key, '\n'),
        free_of(value, '\n'),
        value.len() == 0 || (!is_space(value[0]) && !is_space(value[value.len() - 1])),
    ensures
        scan(key + "="@ + value + "\n"@ + rest, st) == scan(rest, assign_field(st, key, value)),
{
    reveal_strlit("=");
    let line = key + "="@ + value;
    assert forall|j: int| 0 <= j < line.len() implies line[j] != '\n' by {
        if j < key.len() {
            assert(line[j] == key[j]);
        } else if j == key.len() {
            assert(line[j] == '=');
        } else {
            assert(line[j] == value[j - key.len() - 1]);
        }
    }
    lemma_scan_line(st, line, rest);
    lemma_line_step_kv(st, key, value);
}

/// The section header line turns the `Desktop Entry` section on.
proof fn lemma_scan_header(st: ScanState, rest: Seq<char>)
    ensures
        scan("[Desktop Entry]"@ + "\n"@ + rest, st) == scan(
            rest,
            (ScanState { in_entry_section: true, ..st }),
        ),
{
    reveal_strlit("[Desktop Entry]");
    reveal_strlit("Desktop Entry");
    assert(free_of("[Desktop Entry]"@, '\n'));
    lemma_scan_line(st, "[Desktop Entry]"@, rest);
    let t0 = "[Desktop Entry]"@;
    lemma_trim_noop(t0);
    let t = trimmed(t0);
    assert(t == t0);
    assert(t[0] == '[');
    assert(t[t.len() - 1] == ']');
    assert(t.subrange(1, t.len() - 1) =~= "Desktop Entry"@);
}

/// The literal `true` and `false` renderings are clean values.
proof fn lemma_bool_text_clean(b: bool)
    ensures
        bool_text(b).len() > 0,
        free_of(bool_text(b), '\n'),
        free_of(bool_text(b), '='),
        !is_space(bool_text(b)[0]),
        !is_space(bool_text(b)[bool_text(b).len() - 1]),
    {
    reveal_strlit("true");
    reveal_strlit("false");
}

/// One serialized `Version=` line advances the scan by storing the value.
proof fn step_version(st: ScanState, x: Seq<char>, rest: Seq<char>)
    requires
        st.in_entry_section,
        clean_text(x),
    ensures
        scan(opt_line("Version="@, Some(x)) + rest, st) == scan(
            rest,
            (ScanState { f_version: Some(x), ..st }),
        ),
{
    reveal_strlit("Version=");
    reveal_strlit("Version");
    reveal_strlit("=");
    assert("Version="@ =~= "Version"@ + "="@);
    assert(free_of("Version"@, '='));
    assert(free_of("Version"@, '\n'));
    lemma_scan_kv_line(st, "Version"@, x, rest);
    assert(opt_line("Version="@, Some(x)) + rest == "Version"@ + "="@ + x + "\n"@ + rest);

    reveal_strlit("Type");
    reveal_strlit("Name");
    assert("Version"@.len() == 7);
    assert("Type"@.len() == 4);
    assert("Name"@.len() == 4);
    assert("Version"@ != "Type"@);
    assert("Version"@ != "Name"@);
    assert(assign_field(st, "Version"@, x) == (ScanState { f_version: Some(x), ..st }));
}

/// One serialized `GenericName=` line advances the scan by storing the value.
proof fn step_generic_name(st: ScanState, x: Seq<char>, rest: Seq<char>)
    requires
        st.in_entry_section,
        clean_text(x),
    ensures
        scan(opt_line("GenericName="@, Some(x)) + rest, st) == scan(
            rest,
            (ScanState { f_generic_name: Some(x), ..st }),
        ),
{
    reveal_strlit("GenericName=");
    reveal_strlit("GenericName");
    reveal_strlit("=");
    assert("GenericName="@ =~= "GenericName"@ + "="@);
    assert(free_of("GenericName"@, '='));
    assert(free_of("GenericName"@, '\n'));
    lemma_scan_kv_line(st, "GenericName"@, x, rest);
    assert(opt_line("GenericName="@, Some(x)) + rest == "GenericName"@ + "="@ + x + "\n"@ + rest);

    reveal_strlit("Type");
    reveal_strlit("Name");
    reveal_strlit("Version");
    assert("GenericName"@.len() == 11);
    assert("Type"@.len() == 4);
    assert("Name"@.len() == 4);
    assert("Version"@.len() == 7);
    assert("GenericName"@ != "Type"@);
    assert("GenericName"@ != "Name"@);
    assert("GenericName"@ != "Version"@);
    assert(assign_field(st, "GenericName"@, x) == (ScanState { f_generic_name: Some(x), ..st }));
}

/// One serialized `Comment=` line advances the scan by storing the value.
proof fn step_comment(st: ScanState, x: Seq<char>, rest: Seq<char>)
    requires
        st.in_entry_section,
        clean_text(x),
    ensures
        scan(opt_line("Comment="@, Some(x)) + rest, st) == scan(
            rest,
            (ScanState { f_comment: Some(x), ..st }),
        ),
{
    reveal_strlit("Comment=");
    reveal_strlit("Comment");
    reveal_strlit("=");
    reveal_strlit("Version");
    assert("Comment="@ =~= "Comment"@ + "="@);
    assert(free_of("Comment"@, '='));
    assert(free_of("Comment"@, '\n'));
    lemma_scan_kv_line(st, "Comment"@, x, rest);
    assert(opt_line("Comment="@, Some(x)) + rest == "Comment"@ + "="@ + x + "\n"@ + rest);
    assert("Comment"@[0] != "Version"@[0]);
    reveal_strlit("Type");
    reveal_strlit("Name");
    reveal_strlit("GenericName");
    assert("Comment"@.len() == 7);
    assert("Type"@.len() == 4);
    assert("Name"@.len() == 4);
    assert("GenericName"@.len() == 11);
    assert("Comment"@ != "Type"@);
    assert("Comment"@ != "Name"@);
    assert("Comment"@ != "Version"@);
    assert("Comment"@ != "GenericName"@);
    assert(assign_field(st, "Comment"@, x) == (ScanState { f_comment: Some(x), ..st }));
}

/// One serialized `Icon=` line advances the scan by storing the value.
proof fn step_icon(st: ScanState, x: Seq<char>, rest: Seq<char>)
    requires
        st.in_entry_section,
        clean_text(x),
    ensures
        scan(opt_line("Icon="@, Some(x)) + rest, st) == scan(
            rest,
            (ScanState { f_icon: Some(x), ..st }),
        ),
{
    reveal_strlit("Icon=");
    reveal_strlit("Icon");
    reveal_strlit("=");
    reveal_strlit("Type");
    reveal_strlit("Name");
    assert("Icon="@ =~= "Icon"@ + "="@);
    assert(free_of("Icon"@, '='));
    assert(free_of("Icon"@, '\n'));
    lemma_scan_kv_line(st, "Icon"@, x, rest);
    assert(opt_line("Icon="@, Some(x)) + rest == "Icon"@ + "="@ + x + "\n"@ + rest);
    assert("Icon"@[0] != "Type"@[0]);
    assert("Icon"@[0] != "Name"@[0]);
    reveal_strlit("Version");
    reveal_strlit("GenericName");
    reveal_strlit("Comment");
    assert("Icon"@.len() == 4);
    assert("Version"@.len() == 7);
    assert("GenericName"@.len() == 11);
    assert("Comment"@.len() == 7);
    assert("Icon"@ != "Type"@);
    assert("Icon"@ != "Name"@);
    assert("Icon"@ != "Version"@);
    assert("Icon"@ != "GenericName"@);
    assert("Icon"@ != "Comment"@);
    assert(assign_field(st, "Icon"@, x) == (ScanState { f_icon: Some(x), ..st }));
}

/// One serialized `Exec=` line advances the scan by storing the value.
proof fn step_exec_command(st: ScanState, x: Seq<char>, rest: Seq<char>)
    requires
        st.in_entry_section,
        clean_text(x),
    ensures
        scan(opt_line("Exec="@, Some(x)) + rest, st) == scan(
            rest,
            (ScanState { f_exec_command: Some(x), ..st }),
        ),
{
    reveal_strlit("Exec=");
    reveal_strlit("Exec");
    reveal_strlit("=");
    reveal_strlit("Type");
    reveal_strlit("Name");
    reveal_strlit("Icon");
    assert("Exec="@ =~= "Exec"@ + "="@);
    assert(free_of("Exec"@, '='));
    assert(free_of("Exec"@, '\n'));
    lemma_scan_kv_line(st, "Exec"@, x, rest);
    assert(opt_line("Exec="@, Some(x)) + rest == "Exec"@ + "="@ + x + "\n"@ + rest);
    assert("Exec"@[0] != "Type"@[0]);
    assert("Exec"@[0] != "Name"@[0]);
    assert("Exec"@[0] != "Icon"@[0]);
    reveal_strlit("Version");
    reveal_strlit("GenericName");
    reveal_strlit("Comment");
    assert("Exec"@.len() == 4);
    assert("Version"@.len() == 7);
    assert("GenericName"@.len() == 11);
    assert("Comment"@.len() == 7);
    assert("Exec"@ != "Type"@);
    assert("Exec"@ != "Name"@);
    assert("Exec"@ != "Version"@);
    assert("Exec"@ != "GenericName"@);
    assert("Exec"@ != "Comment"@);
    assert("Exec"@ != "Icon"@);
    assert(assign_field(st, "Exec"@, x) == (ScanState { f_exec_command: Some(x), ..st }));
}

/// One serialized `Path=` line advances the scan by storing the value.
proof fn step_path(st: ScanState, x: Seq<char>, rest: Seq<char>)
    requires
        st.in_entry_section,
        clean_text(x),
    ensures
        scan(opt_line("Path="@, Some(x)) + rest, st) == scan(
            rest,
            (ScanState { f_path: Some(x), ..st }),
        ),
{
    reveal_strlit("Path=");
    reveal_strlit("Path");
    reveal_strlit("=");
    reveal_strlit("Type");
    reveal_strlit("Name");
    reveal_strlit("Icon");
    reveal_strlit("Exec");
    assert("Path="@ =~= "Path"@ + "="@);
    assert(free_of("Path"@, '='));
    assert(free_of("Path"@, '\n'));
    lemma_scan_kv_line(st, "Path"@, x, rest);
    assert(opt_line("Path="@, Some(x)) + rest == "Path"@ + "="@ + x + "\n"@ + rest);
    assert("Path"@[0] != "Type"@[0]);
    assert("Path"@[0] != "Name"@[0]);
    assert("Path"@[0] != "Icon"@[0]);
    assert("Path"@[0] != "Exec"@[0]);
    reveal_strlit("Version");
    reveal_strlit("GenericName");
    reveal_strlit("Comment");
    assert("Path"@.len() == 4);
    assert("Version"@.len() == 7);
    assert("GenericName"@.len() == 11);
    assert("Comment"@.len() == 7);
    assert("Path"@ != "Type"@);
    assert("Path"@ != "Name"@);
    assert("Path"@ != "Version"@);
    assert("Path"@ != "GenericName"@);
    assert("Path"@ != "Comment"@);
    assert("Path"@ != "Icon"@);
    assert("Path"@ != "Exec"@);
    assert(assign_field(st, "Path"@, x) == (ScanState { f_path: Some(x), ..st }));
}

/// One serialized `Terminal=` line advances the scan by storing the rendered
/// boolean.
proof fn step_terminal(st: ScanState, b: bool, rest: Seq<char>)
    requires
        st.in_entry_section,
    ensures
        scan(opt_bool_line("Terminal="@, Some(b)) + rest, st) == scan(
            rest,
            (ScanState { f_terminal: Some(bool_text(b)), ..st }),
        ),
{
    reveal_strlit("Terminal=");
    reveal_strlit("Terminal");
    reveal_strlit("=");
    lemma_bool_text_clean(b);
    assert("Terminal="@ =~= "Terminal"@ + "="@);
    assert(free_of("Terminal"@, '='));
    assert(free_of("Terminal"@, '\n'));
    lemma_scan_kv_line(st, "Terminal"@, bool_text(b), rest);
    assert(opt_bool_line("Terminal="@, Some(b)) + rest == "Terminal"@ + "="@ + bool_text(b) + "\n"@
        + rest);

    reveal_strlit("Type");
    reveal_strlit("Name");
    reveal_strlit("Version");
    reveal_strlit("GenericName");
    reveal_strlit("Comment");
    reveal_strlit("Icon");
    reveal_strlit("Exec");
    reveal_strlit("Path");
    assert("Terminal"@.len() == 8);
    assert("Type"@.len() == 4);
    assert("Name"@.len() == 4);
    assert("Version"@.len() == 7);
    assert("GenericName"@.len() == 11);
    assert("Comment"@.len() == 7);
    assert("Icon"@.len() == 4);
    assert("Exec"@.len() == 4);
    assert("Path"@.len() == 4);
    assert("Terminal"@ != "Type"@);
    assert("Terminal"@ != "Name"@);
    assert("Terminal"@ != "Version"@);
    assert("Terminal"@ != "GenericName"@);
    assert("Terminal"@ != "Comment"@);
    assert("Terminal"@ != "Icon"@);
    assert("Terminal"@ != "Exec"@);
    assert("Terminal"@ != "Path"@);
    assert(assign_field(st, "Terminal"@, bool_text(b)) == (ScanState { f_terminal: Some(bool_text(b)), ..st }));
}

/// One serialized `Categories=` line advances the scan by storing the value.
proof fn step_categories(st: ScanState, x: Seq<char>, rest: Seq<char>)
    requires
        st.in_entry_section,
        clean_text(x),
    ensures
        scan(opt_line("Categories="@, Some(x)) + rest, st) == scan(
            rest,
            (ScanState { f_categories: Some(x), ..st }),
        ),
{
    reveal_strlit("Categories=");
    reveal_strlit("Categories");
    reveal_strlit("=");
    assert("Categories="@ =~= "Categories"@ + "="@);
    assert(free_of("Categories"@, '='));
    assert(free_of("Categories"@, '\n'));
    lemma_scan_kv_line(st, "Categories"@, x, rest);
    assert(opt_line("Categories="@, Some(x)) + rest == "Categories"@ + "="@ + x + "\n"@ + rest);

    reveal_strlit("Type");
    reveal_strlit("Name");
    reveal_strlit("Version");
    reveal_strlit("GenericName");
    reveal_strlit("Comment");
    reveal_strlit("Icon");
    reveal_strlit("Exec");
    reveal_strlit("Path");
    reveal_strlit("Terminal");
    assert("Categories"@.len() == 10);
    assert("Type"@.len() == 4);
    assert("Name"@.len() == 4);
    assert("Version"@.len() == 7);
    assert("GenericName"@.len() == 11);
    assert("Comment"@.len() == 7);
    assert("Icon"@.len() == 4);
    assert("Exec"@.len() == 4);
    assert("Path"@.len() == 4);
    assert("Terminal"@.len() == 8);
    assert("Categories"@ != "Type"@);
    assert("Categories"@ != "Name"@);
    assert("Categories"@ != "Version"@);
    assert("Categories"@ != "GenericName"@);
    assert("Categories"@ != "Comment"@);
    assert("Categories"@ != "Icon"@);
    assert("Categories"@ != "Exec"@);
    assert("Categories"@ != "Path"@);
    assert("Categories"@ != "Terminal"@);
    assert(assign_field(st, "Categories"@, x) == (ScanState { f_categories: Some(x), ..st }));
}

/// One serialized `Keywords=` line advances the scan by storing the value.
proof fn step_keywords(st: ScanState, x: Seq<char>, rest: Seq<char>)
    requires
        st.in_entry_section,
        clean_text(x),
    ensures
        scan(opt_line("Keywords="@, Some(x)) + rest, st) == scan(
            rest,
            (ScanState { f_keywords: Some(x), ..st }),
        ),
{
    reveal_strlit("Keywords=");
    reveal_strlit("Keywords");
    reveal_strlit("=");
    reveal_strlit("Terminal");
    assert("Keywords="@ =~= "Keywords"@ + "="@);
    assert(free_of("Keywords"@, '='));
    assert(free_of("Keywords"@, '\n'));
    lemma_scan_kv_line(st, "Keywords"@, x, rest);
    assert(opt_line("Keywords="@, Some(x)) + rest == "Keywords"@ + "="@ + x + "\n"@ + rest);
    assert("Keywords"@[0] != "Terminal"@[0]);
    reveal_strlit("Type");
    reveal_strlit("Name");
    reveal_strlit("Version");
    reveal_strlit("GenericName");
    reveal_strlit("Comment");
    reveal_strlit("Icon");
    reveal_strlit("Exec");
    reveal_strlit("Path");
    reveal_strlit("Categories");
    assert("Keywords"@.len() == 8);
    assert("Type"@.len() == 4);
    assert("Name"@.len() == 4);
    assert("Version"@.len() == 7);
    assert("GenericName"@.len() == 11);
    assert("Comment"@.len() == 7);
    assert("Icon"@.len() == 4);
    assert("Exec"@.len() == 4);
    assert("Path"@.len() == 4);
    assert("Categories"@.len() == 10);
    assert("Keywords"@ != "Type"@);
    assert("Keywords"@ != "Name"@);
    assert("Keywords"@ != "Version"@);
    assert("Keywords"@ != "GenericName"@);
    assert("Keywords"@ != "Comment"@);
    assert("Keywords"@ != "Icon"@);
    assert("Keywords"@ != "Exec"@);
    assert("Keywords"@ != "Path"@);
    assert("Keywords"@ != "Terminal"@);
    assert("Keywords"@ != "Categories"@);
    assert(assign_field(st, "Keywords"@, x) == (ScanState { f_keywords: Some(x), ..st }));
}

/// One serialized `StartupWMClass=` line advances the scan by storing the value.
proof fn step_startup_wm_class(st: ScanState, x: Seq<char>, rest: Seq<char>)
    requires
        st.in_entry_section,
        clean_text(x),
    ensures
        scan(opt_line("StartupWMClass="@, Some(x)) + rest, st) == scan(
            rest,
            (ScanState { f_startup_wm_class: Some(x), ..st }),
        ),
{
    reveal_strlit("StartupWMClass=");
    reveal_strlit("StartupWMClass");
    reveal_strlit("=");
    assert("StartupWMClass="@ =~= "StartupWMClass"@ + "="@);
    assert(free_of("StartupWMClass"@, '='));
    assert(free_of("StartupWMClass"@, '\n'));
    lemma_scan_kv_line(st, "StartupWMClass"@, x, rest);
    assert(opt_line("StartupWMClass="@, Some(x)) + rest == "StartupWMClass"@ + "="@ + x + "\n"@ + rest);

    reveal_strlit("Type");
    reveal_strlit("Name");
    reveal_strlit("Version");
    reveal_strlit("GenericName");
    reveal_strlit("Comment");
    reveal_strlit("Icon");
    reveal_strlit("Exec");
    reveal_strlit("Path");
    reveal_strlit("Terminal");
    reveal_strlit("Categories");
    reveal_strlit("Keywords");
    assert("StartupWMClass"@.len() == 14);
    assert("Type"@.len() == 4);
    assert("Name"@.len() == 4);
    assert("Version"@.len() == 7);
    assert("GenericName"@.len() == 11);
    assert("Comment"@.len() == 7);
    assert("Icon"@.len() == 4);
    assert("Exec"@.len() == 4);
    assert("Path"@.len() == 4);
    assert("Terminal"@.len() == 8);
    assert("Categories"@.len() == 10);
    assert("Keywords"@.len() == 8);
    assert("StartupWMClass"@ != "Type"@);
    assert("StartupWMClass"@ != "Name"@);
    assert("StartupWMClass"@ != "Version"@);
    assert("StartupWMClass"@ != "GenericName"@);
    assert("StartupWMClass"@ != "Comment"@);
    assert("StartupWMClass"@ != "Icon"@);
    assert("StartupWMClass"@ != "Exec"@);
    assert("StartupWMClass"@ != "Path"@);
    assert("StartupWMClass"@ != "Terminal"@);
    assert("StartupWMClass"@ != "Categories"@);
    assert("StartupWMClass"@ != "Keywords"@);
    assert(assign_field(st, "StartupWMClass"@, x) == (ScanState { f_startup_wm_class: Some(x), ..st }));
}

/// One serialized `URL=` line advances the scan by storing the value.
proof fn step_url(st: ScanState, x: Seq<char>, rest: Seq<char>)
    requires
        st.in_entry_section,
        clean_text(x),
    ensures
        scan(opt_line("URL="@, Some(x)) + rest, st) == scan(
            rest,
            (ScanState { f_url: Some(x), ..st }),
        ),
{
    reveal_strlit("URL=");
    reveal_strlit("URL");
    reveal_strlit("=");
    assert("URL="@ =~= "URL"@ + "="@);
    assert(free_of("URL"@, '='));
    assert(free_of("URL"@, '\n'));
    lemma_scan_kv_line(st, "URL"@, x, rest);
    assert(opt_line("URL="@, Some(x)) + rest == "URL"@ + "="@ + x + "\n"@ + rest);

    reveal_strlit("Type");
    reveal_strlit("Name");
    reveal_strlit("Version");
    reveal_strlit("GenericName");
    reveal_strlit("Comment");
    reveal_strlit("Icon");
    reveal_strlit("Exec");
    reveal_strlit("Path");
    reveal_strlit("Terminal");
    reveal_strlit("Categories");
    reveal_strlit("Keywords");
    reveal_strlit("StartupWMClass");
    assert("URL"@.len() == 3);
    assert("Type"@.len() == 4);
    assert("Name"@.len() == 4);
    assert("Version"@.len() == 7);
    assert("GenericName"@.len() == 11);
    assert("Comment"@.len() == 7);
    assert("Icon"@.len() == 4);
    assert("Exec"@.len() == 4);
    assert("Path"@.len() == 4);
    assert("Terminal"@.len() == 8);
    assert("Categories"@.len() == 10);
    assert("Keywords"@.len() == 8);
    assert("StartupWMClass"@.len() == 14);
    assert("URL"@ != "Type"@);
    assert("URL"@ != "Name"@);
    assert("URL"@ != "Version"@);
    assert("URL"@ != "GenericName"@);
    assert("URL"@ != "Comment"@);
    assert("URL"@ != "Icon"@);
    assert("URL"@ != "Exec"@);
    assert("URL"@ != "Path"@);
    assert("URL"@ != "Terminal"@);
    assert("URL"@ != "Categories"@);
    assert("URL"@ != "Keywords"@);
    assert("URL"@ != "StartupWMClass"@);
    assert(assign_field(st, "URL"@, x) == (ScanState { f_url: Some(x), ..st }));
}

/// One serialized `MimeType=` line advances the scan by storing the value.
proof fn step_mime_type(st: ScanState, x: Seq<char>, rest: Seq<char>)
    requires
        st.in_entry_section,
        clean_text(x),
    ensures
        scan(opt_line("MimeType="@, Some(x)) + rest, st) == scan(
            rest,
            (ScanState { f_mime_type: Some(x), ..st }),
        ),
{
    reveal_strlit("MimeType=");
    reveal_strlit("MimeType");
    reveal_strlit("=");
    reveal_strlit("Terminal");
    reveal_strlit("Keywords");
    assert("MimeType="@ =~= "MimeType"@ + "="@);
    assert(free_of("MimeType"@, '='));
    assert(free_of("MimeType"@, '\n'));
    lemma_scan_kv_line(st, "MimeType"@, x, rest);
    assert(opt_line("MimeType="@, Some(x)) + rest == "MimeType"@ + "="@ + x + "\n"@ + rest);
    assert("MimeType"@[0] != "Terminal"@[0]);
    assert("MimeType"@[0] != "Keywords"@[0]);
    reveal_strlit("Type");
    reveal_strlit("Name");
    reveal_strlit("Version");
    reveal_strlit("GenericName");
    reveal_strlit("Comment");
    reveal_strlit("Icon");
    reveal_strlit("Exec");
    reveal_strlit("Path");
    reveal_strlit("Categories");
    reveal_strlit("StartupWMClass");
    reveal_strlit("URL");
    assert("MimeType"@.len() == 8);
    assert("Type"@.len() == 4);
    assert("Name"@.len() == 4);
    assert("Version"@.len() == 7);
    assert("GenericName"@.len() == 11);
    assert("Comment"@.len() == 7);
    assert("Icon"@.len() == 4);
    assert("Exec"@.len() == 4);
    assert("Path"@.len() == 4);
    assert("Categories"@.len() == 10);
    assert("StartupWMClass"@.len() == 14);
    assert("URL"@.len() == 3);
    assert("MimeType"@ != "Type"@);
    assert("MimeType"@ != "Name"@);
    assert("MimeType"@ != "Version"@);
    assert("MimeType"@ != "GenericName"@);
    assert("MimeType"@ != "Comment"@);
    assert("MimeType"@ != "Icon"@);
    assert("MimeType"@ != "Exec"@);
    assert("MimeType"@ != "Path"@);
    assert("MimeType"@ != "Terminal"@);
    assert("MimeType"@ != "Categories"@);
    assert("MimeType"@ != "Keywords"@);
    assert("MimeType"@ != "StartupWMClass"@);
    assert("MimeType"@ != "URL"@);
    assert(assign_field(st, "MimeType"@, x) == (ScanState { f_mime_type: Some(x), ..st }));
}

/// One serialized `Hidden=` line advances the scan by storing the rendered
/// boolean.
proof fn step_hidden(st: ScanState, b: bool, rest: Seq<char>)
    requires
        st.in_entry_section,
    ensures
        scan(opt_bool_line("Hidden="@, Some(b)) + rest, st) == scan(
            rest,
            (ScanState { f_hidden: Some(bool_text(b)), ..st }),
        ),
{
    reveal_strlit("Hidden=");
    reveal_strlit("Hidden");
    reveal_strlit("=");
    lemma_bool_text_clean(b);
    assert("Hidden="@ =~= "Hidden"@ + "="@);
    assert(free_of("Hidden"@, '='));
    assert(free_of("Hidden"@, '\n'));
    lemma_scan_kv_line(st, "Hidden"@, bool_text(b), rest);
    assert(opt_bool_line("Hidden="@, Some(b)) + rest == "Hidden"@ + "="@ + bool_text(b) + "\n"@
        + rest);

    reveal_strlit("Type");
    reveal_strlit("Name");
    reveal_strlit("Version");
    reveal_strlit("GenericName");
    reveal_strlit("Comment");
    reveal_strlit("Icon");
    reveal_strlit("Exec");
    reveal_strlit("Path");
    reveal_strlit("Terminal");
    reveal_strlit("Categories");
    reveal_strlit("Keywords");
    reveal_strlit("StartupWMClass");
    reveal_strlit("URL");
    reveal_strlit("MimeType");
    assert("Hidden"@.len() == 6);
    assert("Type"@.len() == 4);
    assert("Name"@.len() == 4);
    assert("Version"@.len() == 7);
    assert("GenericName"@.len() == 11);
    assert("Comment"@.len() == 7);
    assert("Icon"@.len() == 4);
    assert("Exec"@.len() == 4);
    assert("Path"@.len() == 4);
    assert("Terminal"@.len() == 8);
    assert("Categories"@.len() == 10);
    assert("Keywords"@.len() == 8);
    assert("StartupWMClass"@.len() == 14);
    assert("URL"@.len() == 3);
    assert("MimeType"@.len() == 8);
    assert("Hidden"@ != "Type"@);
    assert("Hidden"@ != "Name"@);
    assert("Hidden"@ != "Version"@);
    assert("Hidden"@ != "GenericName"@);
    assert("Hidden"@ != "Comment"@);
    assert("Hidden"@ != "Icon"@);
    assert("Hidden"@ != "Exec"@);
    assert("Hidden"@ != "Path"@);
    assert("Hidden"@ != "Terminal"@);
    assert("Hidden"@ != "Categories"@);
    assert("Hidden"@ != "Keywords"@);
    assert("Hidden"@ != "StartupWMClass"@);
    assert("Hidden"@ != "URL"@);
    assert("Hidden"@ != "MimeType"@);
    assert(assign_field(st, "Hidden"@, bool_text(b)) == (ScanState { f_hidden: Some(bool_text(b)), ..st }));
}

/// One serialized `OnlyShowIn=` line advances the scan by storing the value.
proof fn step_only_show_in(st: ScanState, x: Seq<char>, rest: Seq<char>)
    requires
        st.in_entry_section,
        clean_text(x),
    ensures
        scan(opt_line("OnlyShowIn="@, Some(x)) + rest, st) == scan(
            rest,
            (ScanState { f_only_show_in: Some(x), ..st }),
        ),
{
    reveal_strlit("OnlyShowIn=");
    reveal_strlit("OnlyShowIn");
    reveal_strlit("=");
    reveal_strlit("Categories");
    assert("OnlyShowIn="@ =~= "OnlyShowIn"@ + "="@);
    assert(free_of("OnlyShowIn"@, '='));
    assert(free_of("OnlyShowIn"@, '\n'));
    lemma_scan_kv_line(st, "OnlyShowIn"@, x, rest);
    assert(opt_line("OnlyShowIn="@, Some(x)) + rest == "OnlyShowIn"@ + "="@ + x + "\n"@ + rest);
    assert("OnlyShowIn"@[0] != "Categories"@[0]);
    reveal_strlit("Type");
    reveal_strlit("Name");
    reveal_strlit("Version");
    reveal_strlit("GenericName");
    reveal_strlit("Comment");
    reveal_strlit("Icon");
    reveal_strlit("Exec");
    reveal_strlit("Path");
    reveal_strlit("Terminal");
    reveal_strlit("Keywords");
    reveal_strlit("StartupWMClass");
    reveal_strlit("URL");
    reveal_strlit("MimeType");
    reveal_strlit("Hidden");
    assert("OnlyShowIn"@.len() == 10);
    assert("Type"@.len() == 4);
    assert("Name"@.len() == 4);
    assert("Version"@.len() == 7);
    assert("GenericName"@.len() == 11);
    assert("Comment"@.len() == 7);
    assert("Icon"@.len() == 4);
    assert("Exec"@.len() == 4);
    assert("Path"@.len() == 4);
    assert("Terminal"@.len() == 8);
    assert("Keywords"@.len() == 8);
    assert("StartupWMClass"@.len() == 14);
    assert("URL"@.len() == 3);
    assert("MimeType"@.len() == 8);
    assert("Hidden"@.len() == 6);
    assert("OnlyShowIn"@ != "Type"@);
    assert("OnlyShowIn"@ != "Name"@);
    assert("OnlyShowIn"@ != "Version"@);
    assert("OnlyShowIn"@ != "GenericName"@);
    assert("OnlyShowIn"@ != "Comment"@);
    assert("OnlyShowIn"@ != "Icon"@);
    assert("OnlyShowIn"@ != "Exec"@);
    assert("OnlyShowIn"@ != "Path"@);
    assert("OnlyShowIn"@ != "Terminal"@);
    assert("OnlyShowIn"@ != "Categories"@);
    assert("OnlyShowIn"@ != "Keywords"@);
    assert("OnlyShowIn"@ != "StartupWMClass"@);
    assert("OnlyShowIn"@ != "URL"@);
    assert("OnlyShowIn"@ != "MimeType"@);
    assert("OnlyShowIn"@ != "Hidden"@);
    assert(assign_field(st, "OnlyShowIn"@, x) == (ScanState { f_only_show_in: Some(x), ..st }));
}

/// One serialized `NotShowIn=` line advances the scan by storing the value.
proof fn step_not_show_in(st: ScanState, x: Seq<char>, rest: Seq<char>)
    requires
        st.in_entry_section,
        clean_text(x),
    ensures
        scan(opt_line("NotShowIn="@, Some(x)) + rest, st) == scan(
            rest,
            (ScanState { f_not_show_in: Some(x), ..st }),
        ),
{
    reveal_strlit("NotShowIn=");
    reveal_strlit("NotShowIn");
    reveal_strlit("=");
    assert("NotShowIn="@ =~= "NotShowIn"@ + "="@);
    assert(free_of("NotShowIn"@, '='));
    assert(free_of("NotShowIn"@, '\n'));
    lemma_scan_kv_line(st, "NotShowIn"@, x, rest);
    assert(opt_line("NotShowIn="@, Some(x)) + rest == "NotShowIn"@ + "="@ + x + "\n"@ + rest);

    reveal_strlit("Type");
    reveal_strlit("Name");
    reveal_strlit("Version");
    reveal_strlit("GenericName");
    reveal_strlit("Comment");
    reveal_strlit("Icon");
    reveal_strlit("Exec");
    reveal_strlit("Path");
    reveal_strlit("Terminal");
    reveal_strlit("Categories");
    reveal_strlit("Keywords");
    reveal_strlit("StartupWMClass");
    reveal_strlit("URL");
    reveal_strlit("MimeType");
    reveal_strlit("Hidden");
    reveal_strlit("OnlyShowIn");
    assert("NotShowIn"@.len() == 9);
    assert("Type"@.len() == 4);
    assert("Name"@.len() == 4);
    assert("Version"@.len() == 7);
    assert("GenericName"@.len() == 11);
    assert("Comment"@.len() == 7);
    assert("Icon"@.len() == 4);
    assert("Exec"@.len() == 4);
    assert("Path"@.len() == 4);
    assert("Terminal"@.len() == 8);
    assert("Categories"@.len() == 10);
    assert("Keywords"@.len() == 8);
    assert("StartupWMClass"@.len() == 14);
    assert("URL"@.len() == 3);
    assert("MimeType"@.len() == 8);
    assert("Hidden"@.len() == 6);
    assert("OnlyShowIn"@.len() == 10);
    assert("NotShowIn"@ != "Type"@);
    assert("NotShowIn"@ != "Name"@);
    assert("NotShowIn"@ != "Version"@);
    assert("NotShowIn"@ != "GenericName"@);
    assert("NotShowIn"@ != "Comment"@);
    assert("NotShowIn"@ != "Icon"@);
    assert("NotShowIn"@ != "Exec"@);
    assert("NotShowIn"@ != "Path"@);
    assert("NotShowIn"@ != "Terminal"@);
    assert("NotShowIn"@ != "Categories"@);
    assert("NotShowIn"@ != "Keywords"@);
    assert("NotShowIn"@ != "StartupWMClass"@);
    assert("NotShowIn"@ != "URL"@);
    assert("NotShowIn"@ != "MimeType"@);
    assert("NotShowIn"@ != "Hidden"@);
    assert("NotShowIn"@ != "OnlyShowIn"@);
    assert(assign_field(st, "NotShowIn"@, x) == (ScanState { f_not_show_in: Some(x), ..st }));
}

/// One serialized `DBusActivatable=` line advances the scan by storing the rendered
/// boolean.
proof fn step_dbus_activatable(st: ScanState, b: bool, rest: Seq<char>)
    requires
        st.in_entry_section,
    ensures
        scan(opt_bool_line("DBusActivatable="@, Some(b)) + rest, st) == scan(
            rest,
            (ScanState { f_dbus_activatable: Some(bool_text(b)), ..st }),
        ),
{
    reveal_strlit("DBusActivatable=");
    reveal_strlit("DBusActivatable");
    reveal_strlit("=");
    lemma_bool_text_clean(b);
    assert("DBusActivatable="@ =~= "DBusActivatable"@ + "="@);
    assert(free_of("DBusActivatable"@, '='));
    assert(free_of("DBusActivatable"@, '\n'));
    lemma_scan_kv_line(st, "DBusActivatable"@, bool_text(b), rest);
    assert(opt_bool_line("DBusActivatable="@, Some(b)) + rest == "DBusActivatable"@ + "="@ + bool_text(b) + "\n"@
        + rest);

    reveal_strlit("Type");
    reveal_strlit("Name");
    reveal_strlit("Version");
    reveal_strlit("GenericName");
    reveal_strlit("Comment");
    reveal_strlit("Icon");
    reveal_strlit("Exec");
    reveal_strlit("Path");
    reveal_strlit("Terminal");
    reveal_strlit("Categories");
    reveal_strlit("Keywords");
    reveal_strlit("StartupWMClass");
    reveal_strlit("URL");
    reveal_strlit("MimeType");
    reveal_strlit("Hidden");
    reveal_strlit("OnlyShowIn");
    reveal_strlit("NotShowIn");
    assert("DBusActivatable"@.len() == 15);
    assert("Type"@.len() == 4);
    assert("Name"@.len() == 4);
    assert("Version"@.len() == 7);
    assert("GenericName"@.len() == 11);
    assert("Comment"@.len() == 7);
    assert("Icon"@.len() == 4);
    assert("Exec"@.len() == 4);
    assert("Path"@.len() == 4);
    assert("Terminal"@.len() == 8);
    assert("Categories"@.len() == 10);
    assert("Keywords"@.len() == 8);
    assert("StartupWMClass"@.len() == 14);
    assert("URL"@.len() == 3);
    assert("MimeType"@.len() == 8);
    assert("Hidden"@.len() == 6);
    assert("OnlyShowIn"@.len() == 10);
    assert("NotShowIn"@.len() == 9);
    assert("DBusActivatable"@ != "Type"@);
    assert("DBusActivatable"@ != "Name"@);
    assert("DBusActivatable"@ != "Version"@);
    assert("DBusActivatable"@ != "GenericName"@);
    assert("DBusActivatable"@ != "Comment"@);
    assert("DBusActivatable"@ != "Icon"@);
    assert("DBusActivatable"@ != "Exec"@);
    assert("DBusActivatable"@ != "Path"@);
    assert("DBusActivatable"@ != "Terminal"@);
    assert("DBusActivatable"@ != "Categories"@);
    assert("DBusActivatable"@ != "Keywords"@);
    assert("DBusActivatable"@ != "StartupWMClass"@);
    assert("DBusActivatable"@ != "URL"@);
    assert("DBusActivatable"@ != "MimeType"@);
    assert("DBusActivatable"@ != "Hidden"@);
    assert("DBusActivatable"@ != "OnlyShowIn"@);
    assert("DBusActivatable"@ != "NotShowIn"@);
    assert(assign_field(st, "DBusActivatable"@, bool_text(b)) == (ScanState { f_dbus_activatable: Some(bool_text(b)), ..st }));
}

/// One serialized `TryExec=` line advances the scan by storing the value.
proof fn step_try_exec(st: ScanState, x: Seq<char>, rest: Seq<char>)
    requires
        st.in_entry_section,
        clean_text(x),
    ensures
        scan(opt_line("TryExec="@, Some(x)) + rest, st) == scan(
            rest,
            (ScanState { f_try_exec: Some(x), ..st }),
        ),
{
    reveal_strlit("TryExec=");
    reveal_strlit("TryExec");
    reveal_strlit("=");
    reveal_strlit("Version");
    reveal_strlit("Comment");
    assert("TryExec="@ =~= "TryExec"@ + "="@);
    assert(free_of("TryExec"@, '='));
    assert(free_of("TryExec"@, '\n'));
    lemma_scan_kv_line(st, "TryExec"@, x, rest);
    assert(opt_line("TryExec="@, Some(x)) + rest == "TryExec"@ + "="@ + x + "\n"@ + rest);
    assert("TryExec"@[0] != "Version"@[0]);
    assert("TryExec"@[0] != "Comment"@[0]);
    reveal_strlit("Type");
    reveal_strlit("Name");
    reveal_strlit("GenericName");
    reveal_strlit("Icon");
    reveal_strlit("Exec");
    reveal_strlit("Path");
    reveal_strlit("Terminal");
    reveal_strlit("Categories");
    reveal_strlit("Keywords");
    reveal_strlit("StartupWMClass");
    reveal_strlit("URL");
    reveal_strlit("MimeType");
    reveal_strlit("Hidden");
    reveal_strlit("OnlyShowIn");
    reveal_strlit("NotShowIn");
    reveal_strlit("DBusActivatable");
    assert("TryExec"@.len() == 7);
    assert("Type"@.len() == 4);
    assert("Name"@.len() == 4);
    assert("GenericName"@.len() == 11);
    assert("Icon"@.len() == 4);
    assert("Exec"@.len() == 4);
    assert("Path"@.len() == 4);
    assert("Terminal"@.len() == 8);
    assert("Categories"@.len() == 10);
    assert("Keywords"@.len() == 8);
    assert("StartupWMClass"@.len() == 14);
    assert("URL"@.len() == 3);
    assert("MimeType"@.len() == 8);
    assert("Hidden"@.len() == 6);
    assert("OnlyShowIn"@.len() == 10);
    assert("NotShowIn"@.len() == 9);
    assert("DBusActivatable"@.len() == 15);
    assert("TryExec"@ != "Type"@);
    assert("TryExec"@ != "Name"@);
    assert("TryExec"@ != "Version"@);
    assert("TryExec"@ != "GenericName"@);
    assert("TryExec"@ != "Comment"@);
    assert("TryExec"@ != "Icon"@);
    assert("TryExec"@ != "Exec"@);
    assert("TryExec"@ != "Path"@);
    assert("TryExec"@ != "Terminal"@);
    assert("TryExec"@ != "Categories"@);
    assert("TryExec"@ != "Keywords"@);
    assert("TryExec"@ != "StartupWMClass"@);
    assert("TryExec"@ != "URL"@);
    assert("TryExec"@ != "MimeType"@);
    assert("TryExec"@ != "Hidden"@);
    assert("TryExec"@ != "OnlyShowIn"@);
    assert("TryExec"@ != "NotShowIn"@);
    assert("TryExec"@ != "DBusActivatable"@);
    assert(assign_field(st, "TryExec"@, x) == (ScanState { f_try_exec: Some(x), ..st }));
}

/// One serialized `Actions=` line advances the scan by storing the value.
proof fn step_actions(st: ScanState, x: Seq<char>, rest: Seq<char>)
    requires
        st.in_entry_section,
        clean_text(x),
    ensures
        scan(opt_line("Actions="@, Some(x)) + rest, st) == scan(
            rest,
            (ScanState { f_actions: Some(x), ..st }),
        ),
{
    reveal_strlit("Actions=");
    reveal_strlit("Actions");
    reveal_strlit("=");
    reveal_strlit("Version");
    reveal_strlit("Comment");
    reveal_strlit("TryExec");
    assert("Actions="@ =~= "Actions"@ + "="@);
    assert(free_of("Actions"@, '='));
    assert(free_of("Actions"@, '\n'));
    lemma_scan_kv_line(st, "Actions"@, x, rest);
    assert(opt_line("Actions="@, Some(x)) + rest == "Actions"@ + "="@ + x + "\n"@ + rest);
    assert("Actions"@[0] != "Version"@[0]);
    assert("Actions"@[0] != "Comment"@[0]);
    assert("Actions"@[0] != "TryExec"@[0]);
    reveal_strlit("Type");
    reveal_strlit("Name");
    reveal_strlit("GenericName");
    reveal_strlit("Icon");
    reveal_strlit("Exec");
    reveal_strlit("Path");
    reveal_strlit("Terminal");
    reveal_strlit("Categories");
    reveal_strlit("Keywords");
    reveal_strlit("StartupWMClass");
    reveal_strlit("URL");
    reveal_strlit("MimeType");
    reveal_strlit("Hidden");
    reveal_strlit("OnlyShowIn");
    reveal_strlit("NotShowIn");
    reveal_strlit("DBusActivatable");
    assert("Actions"@.len() == 7);
    assert("Type"@.len() == 4);
    assert("Name"@.len() == 4);
    assert("GenericName"@.len() == 11);
    assert("Icon"@.len() == 4);
    assert("Exec"@.len() == 4);
    assert("Path"@.len() == 4);
    assert("Terminal"@.len() == 8);
    assert("Categories"@.len() == 10);
    assert("Keywords"@.len() == 8);
    assert("StartupWMClass"@.len() == 14);
    assert("URL"@.len() == 3);
    assert("MimeType"@.len() == 8);
    assert("Hidden"@.len() == 6);
    assert("OnlyShowIn"@.len() == 10);
    assert("NotShowIn"@.len() == 9);
    assert("DBusActivatable"@.len() == 15);
    assert("Actions"@ != "Type"@);
    assert("Actions"@ != "Name"@);
    assert("Actions"@ != "Version"@);
    assert("Actions"@ != "GenericName"@);
    assert("Actions"@ != "Comment"@);
    assert("Actions"@ != "Icon"@);
    assert("Actions"@ != "Exec"@);
    assert("Actions"@ != "Path"@);
    assert("Actions"@ != "Terminal"@);
    assert("Actions"@ != "Categories"@);
    assert("Actions"@ != "Keywords"@);
    assert("Actions"@ != "StartupWMClass"@);
    assert("Actions"@ != "URL"@);
    assert("Actions"@ != "MimeType"@);
    assert("Actions"@ != "Hidden"@);
    assert("Actions"@ != "OnlyShowIn"@);
    assert("Actions"@ != "NotShowIn"@);
    assert("Actions"@ != "DBusActivatable"@);
    assert("Actions"@ != "TryExec"@);
    assert(assign_field(st, "Actions"@, x) == (ScanState { f_actions: Some(x), ..st }));
}
/// The serialized `Type=` line stores the record's type.
proof fn step_entry_type(st: ScanState, x: Seq<char>, rest: Seq<char>)
    requires
        st.in_entry_section,
        clean_text(x),
    ensures
        scan("Type"@ + "="@ + x + "\n"@ + rest, st) == scan(
            rest,
            (ScanState { f_type: Some(x), ..st }),
        ),
{
    reveal_strlit("Type");
    reveal_strlit("=");
    assert(free_of("Type"@, '='));
    assert(free_of("Type"@, '\n'));
    lemma_scan_kv_line(st, "Type"@, x, rest);
}

/// The serialized `Name=` line stores the record's name.
proof fn step_name(st: ScanState, x: Seq<char>, rest: Seq<char>)
    requires
        st.in_entry_section,
        clean_text(x),
    ensures
        scan("Name"@ + "="@ + x + "\n"@ + rest, st) == scan(
            rest,
            (ScanState { f_name: Some(x), ..st }),
        ),
{
    reveal_strlit("Name");
    reveal_strlit("Type");
    reveal_strlit("=");
    assert(free_of("Name"@, '='));
    assert(free_of("Name"@, '\n'));
    lemma_scan_kv_line(st, "Name"@, x, rest);
    assert("Name"@[0] != "Type"@[0]);
}

proof fn lemma_shift(x: Seq<char>, y: Seq<char>, z: Seq<char>)
    ensures
        (x + y) + z == x + (y + z),
{
    assert((x + y) + z =~= x + (y + z));
}

proof fn lemma_empty_tail(x: Seq<char>)
    ensures
        x + Seq::<char>::empty() == x,
{
    assert(x + Seq::<char>::empty() =~= x);
}

/// Law: for any record whose string fields are safe for the line format,
/// parsing the serialized text yields the record unchanged, field for field.
#[verifier::rlimit(100)]
pub proof fn lemma_round_trip(v: EntryView)
    requires
        round_trippable(v),
    ensures
        parse_desc(serialized(v)) == Some(v),
{
    let l0 = "[Desktop Entry]\n"@ + "Type="@ + v.entry_type + "\n"@ + "Name="@ + v.name
        + "\n"@;
    let l1 = opt_line("Version="@, v.version);
    let l2 = opt_line("GenericName="@, v.generic_name);
    let l3 = opt_line("Comment="@, v.comment);
    let l4 = opt_line("Icon="@, v.icon);
    let l5 = opt_line("Exec="@, v.exec_command);
    let l6 = opt_line("Path="@, v.path);
    let l7 = opt_bool_line("Terminal="@, v.terminal);
    let l8 = opt_line("Categories="@, v.categories);
    let l9 = opt_line("Keywords="@, v.keywords);
    let l10 = opt_line("StartupWMClass="@, v.startup_wm_class);
    let l11 = opt_line("URL="@, v.url);
    let l12 = opt_line("MimeType="@, v.mime_type);
    let l13 = opt_bool_line("Hidden="@, v.hidden);
    let l14 = opt_line("OnlyShowIn="@, v.only_show_in);
    let l15 = opt_line("NotShowIn="@, v.not_show_in);
    let l16 = opt_bool_line("DBusActivatable="@, v.dbus_activatable);
    let l17 = opt_line("TryExec="@, v.try_exec);
    let l18 = opt_line("Actions="@, v.actions);
    let a1 = l0 + l1;
    let a2 = a1 + l2;
    let a3 = a2 + l3;
    let a4 = a3 + l4;
    let a5 = a4 + l5;
    let a6 = a5 + l6;
    let a7 = a6 + l7;
    let a8 = a7 + l8;
    let a9 = a8 + l9;
    let a10 = a9 + l10;
    let a11 = a10 + l11;
    let a12 = a11 + l12;
    let a13 = a12 + l13;
    let a14 = a13 + l14;
    let a15 = a14 + l15;
    let a16 = a15 + l16;
    let a17 = a16 + l17;
    let a18 = a17 + l18;
    assert(serialized(v) == a18);
    let t19 = Seq::<char>::empty();
    let t18 = l18 + t19;
    let t17 = l17 + t18;
    let t16 = l16 + t17;
    let t15 = l15 + t16;
    let t14 = l14 + t15;
    let t13 = l13 + t14;
    let t12 = l12 + t13;
    let t11 = l11 + t12;
    let t10 = l10 + t11;
    let t9 = l9 + t10;
    let t8 = l8 + t9;
    let t7 = l7 + t8;
    let t6 = l6 + t7;
    let t5 = l5 + t6;
    let t4 = l4 + t5;
    let t3 = l3 + t4;
    let t2 = l2 + t3;
    let t1 = l1 + t2;
    lemma_empty_tail(a18);
    lemma_shift(a17, l18, t19);
    lemma_shift(a16, l17, t18);
    lemma_shift(a15, l16, t17);
    lemma_shift(a14, l15, t16);
    lemma_shift(a13, l14, t15);
    lemma_shift(a12, l13, t14);
    lemma_shift(a11, l12, t13);
    lemma_shift(a10, l11, t12);
    lemma_shift(a9, l10, t11);
    lemma_shift(a8, l9, t10);
    lemma_shift(a7, l8, t9);
    lemma_shift(a6, l7, t8);
    lemma_shift(a5, l6, t7);
    lemma_shift(a4, l5, t6);
    lemma_shift(a3, l4, t5);
    lemma_shift(a2, l3, t4);
    lemma_shift(a1, l2, t3);
    lemma_shift(l0, l1, t2);
    assert(serialized(v) == l0 + t1);
    let w2 = "Name"@ + "="@ + v.name + "\n"@ + t1;
    let w1 = "Type"@ + "="@ + v.entry_type + "\n"@ + w2;
    let w0 = "[Desktop Entry]"@ + "\n"@ + w1;
    reveal_strlit("[Desktop Entry]\n");
    reveal_strlit("[Desktop Entry]");
    reveal_strlit("\n");
    reveal_strlit("=");
    reveal_strlit("Type=");
    reveal_strlit("Type");
    reveal_strlit("Name=");
    reveal_strlit("Name");
    assert("[Desktop Entry]\n"@ =~= "[Desktop Entry]"@ + "\n"@);
    assert("Type="@ =~= "Type"@ + "="@);
    assert("Name="@ =~= "Name"@ + "="@);
    assert(l0 + t1 =~= w0);
    let st0 = start_state();
    lemma_scan_header(st0, w1);
    let st1 = ScanState { in_entry_section: true, ..st0 };
    step_entry_type(st1, v.entry_type, w2);
    let st2 = ScanState { f_type: Some(v.entry_type), ..st1 };
    step_name(st2, v.name, t1);
    let st3 = ScanState { f_name: Some(v.name), ..st2 };
    assert(scan(serialized(v), st0) == scan(t1, st3));
    let st4 = ScanState { f_version: v.version, ..st3 };
    match v.version {
        Some(x) => {
            step_version(st3, x, t2);
        },
        None => {
            assert(t1 =~= t2);
        },
    }
    assert(scan(t1, st3) == scan(t2, st4));
    let st5 = ScanState { f_generic_name: v.generic_name, ..st4 };
    match v.generic_name {
        Some(x) => {
            step_generic_name(st4, x, t3);
        },
        None => {
            assert(t2 =~= t3);
        },
    }
    assert(scan(t2, st4) == scan(t3, st5));
    let st6 = ScanState { f_comment: v.comment, ..st5 };
    match v.comment {
        Some(x) => {
            step_comment(st5, x, t4);
        },
        None => {
            assert(t3 =~= t4);
        },
    }
    assert(scan(t3, st5) == scan(t4, st6));
    let st7 = ScanState { f_icon: v.icon, ..st6 };
    match v.icon {
        Some(x) => {
            step_icon(st6, x, t5);
        },
        None => {
            assert(t4 =~= t5);
        },
    }
    assert(scan(t4, st6) == scan(t5, st7));
    let st8 = ScanState { f_exec_command: v.exec_command, ..st7 };
    match v.exec_command {
        Some(x) => {
            step_exec_command(st7, x, t6);
        },
        None => {
            assert(t5 =~= t6);
        },
    }
    assert(scan(t5, st7) == scan(t6, st8));
    let st9 = ScanState { f_path: v.path, ..st8 };
    match v.path {
        Some(x) => {
            step_path(st8, x, t7);
        },
        None => {
            assert(t6 =~= t7);
        },
    }
    assert(scan(t6, st8) == scan(t7, st9));
    let st10 = ScanState {
        f_terminal: match v.terminal {
            None => None,
            Some(b) => Some(bool_text(b)),
        },
        ..st9
    };
    match v.terminal {
        Some(b) => {
            step_terminal(st9, b, t8);
        },
        None => {
            assert(t7 =~= t8);
        },
    }
    assert(scan(t7, st9) == scan(t8, st10));
    let st11 = ScanState { f_categories: v.categories, ..st10 };
    match v.categories {
        Some(x) => {
            step_categories(st10, x, t9);
        },
        None => {
            assert(t8 =~= t9);
        },
    }
    assert(scan(t8, st10) == scan(t9, st11));
    let st12 = ScanState { f_keywords: v.keywords, ..st11 };
    match v.keywords {
        Some(x) => {
            step_keywords(st11, x, t10);
        },
        None => {
            assert(t9 =~= t10);
        },
    }
    assert(scan(t9, st11) == scan(t10, st12));
    let st13 = ScanState { f_startup_wm_class: v.startup_wm_class, ..st12 };
    match v.startup_wm_class {
        Some(x) => {
            step_startup_wm_class(st12, x, t11);
        },
        None => {
            assert(t10 =~= t11);
        },
    }
    assert(scan(t10, st12) == scan(t11, st13));
    let st14 = ScanState { f_url: v.url, ..st13 };
    match v.url {
        Some(x) => {
            step_url(st13, x, t12);
        },
        None => {
            assert(t11 =~= t12);
        },
    }
    assert(scan(t11, st13) == scan(t12, st14));
    let st15 = ScanState { f_mime_type: v.mime_type, ..st14 };
    match v.mime_type {
        Some(x) => {
            step_mime_type(st14, x, t13);
        },
        None => {
            assert(t12 =~= t13);
        },
    }
    assert(scan(t12, st14) == scan(t13, st15));
    let st16 = ScanState {
        f_hidden: match v.hidden {
            None => None,
            Some(b) => Some(bool_text(b)),
        },
        ..st15
    };
    match v.hidden {
        Some(b) => {
            step_hidden(st15, b, t14);
        },
        None => {
            assert(t13 =~= t14);
        },
    }
    assert(scan(t13, st15) == scan(t14, st16));
    let st17 = ScanState { f_only_show_in: v.only_show_in, ..st16 };
    match v.only_show_in {
        Some(x) => {
            step_only_show_in(st16, x, t15);
        },
        None => {
            assert(t14 =~= t15);
        },
    }
    assert(scan(t14, st16) == scan(t15, st17));
    let st18 = ScanState { f_not_show_in: v.not_show_in, ..st17 };
    match v.not_show_in {
        Some(x) => {
            step_not_show_in(st17, x, t16);
        },
        None => {
            assert(t15 =~= t16);
        },
    }
    assert(scan(t15, st17) == scan(t16, st18));
    let st19 = ScanState {
        f_dbus_activatable: match v.dbus_activatable {
            None => None,
            Some(b) => Some(bool_text(b)),
        },
        ..st18
    };
    match v.dbus_activatable {
        Some(b) => {
            step_dbus_activatable(st18, b, t17);
        },
        None => {
            assert(t16 =~= t17);
        },
    }
    assert(scan(t16, st18) == scan(t17, st19));
    let st20 = ScanState { f_try_exec: v.try_exec, ..st19 };
    match v.try_exec {
        Some(x) => {
            step_try_exec(st19, x, t18);
        },
        None => {
            assert(t17 =~= t18);
        },
    }
    assert(scan(t17, st19) == scan(t18, st20));
    let st21 = ScanState { f_actions: v.actions, ..st20 };
    match v.actions {
        Some(x) => {
            step_actions(st20, x, t19);
        },
        None => {
            assert(t18 =~= t19);
        },
    }
    assert(scan(t18, st20) == scan(t19, st21));
    assert(scan(serialized(v), st0) == scan(t19, st21));
    assert(scan(t19, st21) == st21);
    reveal_strlit("true");
    reveal_strlit("false");
    assert("true"@.len() == 4);
    assert("false"@.len() == 5);
    assert("true"@ != "false"@);
    assert(entry_of_state(st21) == v);
}

} // verus!

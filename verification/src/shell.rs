//! Desktop integration: the Linux autostart entry.
use vstd::prelude::*;

use crate::text::{chars_of, string_of};
use vstd::string::StringExecFns;

verus! {

/// The name of the autostart desktop file.
pub const LINUX_AUTOSTART_FILE: &'static str = "dev.colink.desktop.desktop";

/// Characters that force an `Exec` value to be quoted.
pub open spec fn needs_quoting(c: char) -> bool {
    c == ' ' || c == '\t' || c == '\n' || c == '"' || c == '\\' || c == '%'
}

/// One character escaped for a quoted `Exec` value.
pub open spec fn escape_char(c: char) -> Seq<char> {
    if c == '\\' {
        seq!['\\', '\\']
    } else if c == '"' {
        seq!['\\', '"']
    } else if c == '%' {
        seq!['%', '%']
    } else {
        seq![c]
    }
}

/// `s` with every character escaped.
pub open spec fn escape_all(s: Seq<char>) -> Seq<char>
    decreases s.len(),
{
    if s.len() == 0 {
        Seq::empty()
    } else {
        escape_all(s.drop_last()) + escape_char(s.last())
    }
}

/// The `Exec` value of a desktop entry: the path as it is when nothing in
/// it needs quoting, else quoted with `\`, `"` and `%` escaped.
pub open spec fn exec_value(path: Seq<char>) -> Seq<char> {
    if exists|i: int| 0 <= i < path.len() && needs_quoting(#[trigger] path[i]) {
        seq!['"'] + escape_all(path) + seq!['"']
    } else {
        path
    }
}

/// The `Exec` value for `value`.
pub fn desktop_entry_exec_value(value: &str) -> (r: String)
    ensures
        r@ == exec_value(value@),
{
    let chars = chars_of(value);
    let n = chars.len();
    let mut quote = false;
    let mut escaped: Vec<char> = Vec::new();
    let mut i: usize = 0;
    while i < n
        invariant
            n == chars@.len(),
            chars@ == value@,
            i <= n,
            quote == exists|j: int| 0 <= j < i && needs_quoting(#[trigger] chars@[j]),
            escaped@ == escape_all(chars@.take(i as int)),
        decreases n - i,
    {
        let c = chars[i];
        if c == ' ' || c == '\t' || c == '\n' || c == '"' || c == '\\' || c == '%' {
            quote = true;
        }
        if c == '\\' {
            escaped.push('\\');
            escaped.push('\\');
        } else if c == '"' {
            escaped.push('\\');
            escaped.push('"');
        } else if c == '%' {
            escaped.push('%');
            escaped.push('%');
        } else {
            escaped.push(c);
        }
        proof {
            assert(chars@.take(i + 1).drop_last() =~= chars@.take(i as int));
            assert(escaped@ =~= escape_all(chars@.take(i as int)) + escape_char(c));
        }
        i = i + 1;
    }
    proof {
        assert(chars@.take(n as int) =~= chars@);
    }
    if !quote {
        return value.to_owned();
    }
    let mut out = "\"".to_owned();
    out.append(string_of(escaped.as_slice()).as_str());
    out.append("\"");
    proof {
        reveal_strlit("\"");
        assert(out@ =~= seq!['"'] + escape_all(value@) + seq!['"']);
    }
    out
}

/// The autostart desktop entry that launches `executable`.
pub open spec fn autostart_entry(executable: Seq<char>) -> Seq<char> {
    "[Desktop Entry]\nType=Application\nName=CoLink Desktop\nExec="@ + exec_value(executable)
        + "\nTerminal=false\nX-GNOME-Autostart-enabled=true\n"@
}

/// The autostart desktop entry for the executable at `executable`.
pub fn linux_autostart_entry(executable: &str) -> (r: String)
    ensures
        r@ == autostart_entry(executable@),
{
    let mut out = "[Desktop Entry]\nType=Application\nName=CoLink Desktop\nExec=".to_owned();
    out.append(desktop_entry_exec_value(executable).as_str());
    out.append("\nTerminal=false\nX-GNOME-Autostart-enabled=true\n");
    out
}

} // verus!

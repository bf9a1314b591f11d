//! Decisions of the desktop frontend: autostart entries, text shown in the
//! window, and the requests the window sends for user actions.
use vstd::prelude::*;
use crate::text::{chars_of, string_push};
use vstd::string::StringExecFns;
use crate::proto::Position;

verus! {

/// Unicode `White_Space`, the characters `char::is_whitespace` accepts.
pub open spec fn is_white_space(c: char) -> bool {
    let u = c as u32;
    (0x09 <= u && u <= 0x0d) || u == 0x20 || u == 0x85 || u == 0xa0 || u == 0x1680 || (0x2000 <= u
        && u <= 0x200a) || u == 0x2028 || u == 0x2029 || u == 0x202f || u == 0x205f || u == 0x3000
}

/// Whether `c` is Unicode whitespace, as `char::is_whitespace` says.
pub fn char_is_whitespace(c: char) -> (r: bool)
    ensures
        r == is_white_space(c),
{
    let u = c as u32;
    (0x09 <= u && u <= 0x0d) || u == 0x20 || u == 0x85 || u == 0xa0 || u == 0x1680 || (0x2000 <= u
        && u <= 0x200a) || u == 0x2028 || u == 0x2029 || u == 0x202f || u == 0x205f || u == 0x3000
}

/// `s` without its leading whitespace.
pub open spec fn trim_start(s: Seq<char>) -> Seq<char>
    decreases s.len(),
{
    if s.len() > 0 && is_white_space(s[0]) {
        trim_start(s.drop_first())
    } else {
        s
    }
}

/// `s` without its trailing whitespace.
pub open spec fn trim_end(s: Seq<char>) -> Seq<char>
    decreases s.len(),
{
    if s.len() > 0 && is_white_space(s.last()) {
        trim_end(s.drop_last())
    } else {
        s
    }
}

/// `s` without leading and trailing whitespace, as `str::trim` gives.
pub open spec fn trim(s: Seq<char>) -> Seq<char> {
    trim_end(trim_start(s))
}

/// The code of `c` with ASCII capitals mapped to small letters.
pub open spec fn ascii_lower_code(c: char) -> u32 {
    let u = c as u32;
    if 0x41 <= u && u <= 0x5a {
        (u + 0x20) as u32
    } else {
        u
    }
}

/// Equal up to ASCII case, as `str::eq_ignore_ascii_case` says.
pub open spec fn eq_ignore_ascii_case(a: Seq<char>, b: Seq<char>) -> bool {
    a.len() == b.len() && forall|i: int| 0 <= i < a.len() ==> #[trigger] ascii_lower_code(a[i])
        == ascii_lower_code(b[i])
}

fn lower_code(c: char) -> (r: u32)
    ensures
        r == ascii_lower_code(c),
{
    let u = c as u32;
    if 0x41 <= u && u <= 0x5a {
        u + 0x20
    } else {
        u
    }
}

/// `[start, end)` delimits a whole line of `s`: it starts at the beginning
/// or after a newline, ends at the end or at a newline, and holds none.
pub open spec fn is_line(s: Seq<char>, start: int, end: int) -> bool {
    &&& 0 <= start <= end <= s.len()
    &&& (start == 0 || s[start - 1] == '\n')
    &&& (end == s.len() || s[end] == '\n')
    &&& forall|k: int| start <= k < end ==> s[k] != '\n'
}

/// A desktop entry that hides itself: some line reads `Hidden=true`, up
/// to surrounding whitespace and ASCII case.
pub open spec fn spec_desktop_entry_hidden(content: Seq<char>) -> bool {
    exists|start: int, end: int|
        #![trigger content.subrange(start, end)]
        is_line(content, start, end) && eq_ignore_ascii_case(
            trim(content.subrange(start, end)),
            "Hidden=true"@,
        )
}

fn trimmed_bounds(s: &Vec<char>, start: usize, end: usize) -> (r: (usize, usize))
    requires
        start <= end <= s@.len(),
    ensures
        start <= r.0 <= r.1 <= end,
        trim(s@.subrange(start as int, end as int)) == s@.subrange(r.0 as int, r.1 as int),
{
    let mut a = start;
    while a < end && char_is_whitespace(s[a])
        invariant
            start <= a <= end <= s@.len(),
            trim_start(s@.subrange(start as int, end as int)) == trim_start(
                s@.subrange(a as int, end as int),
            ),
        decreases end - a,
    {
        assert(s@.subrange(a as int, end as int).drop_first() =~= s@.subrange(a + 1, end as int));
        a = a + 1;
    }
    let mut b = end;
    while b > a && char_is_whitespace(s[b - 1])
        invariant
            start <= a <= b <= end <= s@.len(),
            trim_end(s@.subrange(a as int, end as int)) == trim_end(s@.subrange(a as int, b as int)),
        decreases b - a,
    {
        assert(s@.subrange(a as int, b as int).drop_last() =~= s@.subrange(a as int, b - 1));
        b = b - 1;
    }
    (a, b)
}

fn eq_ignore_case_at(s: &Vec<char>, start: usize, end: usize, word: &Vec<char>) -> (r: bool)
    requires
        start <= end <= s@.len(),
    ensures
        r == eq_ignore_ascii_case(s@.subrange(start as int, end as int), word@),
{
    if end - start != word.len() {
        return false;
    }
    let mut k: usize = 0;
    while k < word.len()
        invariant
            start <= end <= s@.len(),
            end - start == word@.len(),
            k <= word@.len(),
            forall|i: int|
                0 <= i < k ==> #[trigger] ascii_lower_code(s@.subrange(start as int, end as int)[i])
                    == ascii_lower_code(word@[i]),
        decreases word@.len() - k,
    {
        if lower_code(s[start + k]) != lower_code(word[k]) {
            assert(ascii_lower_code(s@.subrange(start as int, end as int)[k as int])
                != ascii_lower_code(word@[k as int]));
            return false;
        }
        k = k + 1;
    }
    true
}

/// Whether a desktop entry's text hides it: some line, trimmed, equals
/// `Hidden=true` ignoring ASCII case.
pub fn desktop_entry_hidden(content: &str) -> (r: bool)
    ensures
        r == spec_desktop_entry_hidden(content@),
{
    let s = chars_of(content);
    let word = chars_of("Hidden=true");
    let n = s.len();
    let mut start: usize = 0;
    let mut pos: usize = 0;
    while pos < n
        invariant
            s@ == content@,
            word@ == "Hidden=true"@,
            n == s@.len(),
            start <= pos <= n,
            start == 0 || s@[start - 1] == '\n',
            forall|k: int| start <= k < pos ==> s@[k] != '\n',
            forall|i: int, j: int|
                #![trigger s@.subrange(i, j)]
                is_line(s@, i, j) && j < pos ==> !eq_ignore_ascii_case(
                    trim(s@.subrange(i, j)),
                    word@,
                ),
        decreases n - pos,
    {
        if s[pos] == '\n' {
            if line_matches(&s, start, pos, &word) {
                assert(is_line(s@, start as int, pos as int));
                return true;
            }
            proof {
                lemma_only_line_ending_at(s@, start as int, pos as int);
            }
            start = pos + 1;
        }
        pos = pos + 1;
    }
    if line_matches(&s, start, n, &word) {
        assert(is_line(s@, start as int, n as int));
        return true;
    }
    proof {
        lemma_only_line_ending_at(s@, start as int, n as int);
    }
    false
}

proof fn lemma_only_line_ending_at(s: Seq<char>, start: int, end: int)
    requires
        0 <= start <= end <= s.len(),
        start == 0 || s[start - 1] == '\n',
        forall|k: int| start <= k < end ==> s[k] != '\n',
    ensures
        forall|i: int| #[trigger] is_line(s, i, end) ==> i == start,
{
    assert forall|i: int| #[trigger] is_line(s, i, end) implies i == start by {
        if i < start {
            assert(s[start - 1] == '\n');
        } else if i > start {
            assert(s[i - 1] == '\n');
        }
    }
}

fn line_matches(s: &Vec<char>, start: usize, end: usize, word: &Vec<char>) -> (r: bool)
    requires
        start <= end <= s@.len(),
    ensures
        r == eq_ignore_ascii_case(trim(s@.subrange(start as int, end as int)), word@),
{
    let (a, b) = trimmed_bounds(s, start, end);
    eq_ignore_case_at(s, a, b, word)
}


/// How characters are escaped when a string is embedded in another text.
#[derive(Clone, Copy, Debug, PartialEq, Eq, Structural)]
pub enum Escape {
    /// Inside a double-quoted `Exec=` value of a desktop entry: backslash
    /// and double quote get a backslash.
    DesktopExec,
    /// XML character data: `& < > " '` become entities.
    Xml,
    /// Inside a double-quoted `cmd.exe` argument: a double quote is doubled.
    Cmd,
}

/// The text one character becomes under an escaping style.
pub open spec fn escape_char(style: Escape, c: char) -> Seq<char> {
    match style {
        Escape::DesktopExec => if c == '\\' {
            seq!['\\', '\\']
        } else if c == '"' {
            seq!['\\', '"']
        } else {
            seq![c]
        },
        Escape::Xml => if c == '&' {
            "&amp;"@
        } else if c == '<' {
            "&lt;"@
        } else if c == '>' {
            "&gt;"@
        } else if c == '"' {
            "&quot;"@
        } else if c == '\'' {
            "&apos;"@
        } else {
            seq![c]
        },
        Escape::Cmd => if c == '"' {
            seq!['"', '"']
        } else {
            seq![c]
        },
    }
}

/// `s` with every character escaped.
pub open spec fn escaped(style: Escape, s: Seq<char>) -> Seq<char>
    decreases s.len(),
{
    if s.len() == 0 {
        Seq::empty()
    } else {
        escaped(style, s.drop_last()) + escape_char(style, s.last())
    }
}

fn push_escaped_char(out: &mut String, style: Escape, c: char)
    ensures
        final(out)@ == old(out)@ + escape_char(style, c),
{
    match style {
        Escape::DesktopExec => {
            if c == '\\' {
                string_push(out, '\\');
                string_push(out, '\\');
            } else if c == '"' {
                string_push(out, '\\');
                string_push(out, '"');
            } else {
                string_push(out, c);
            }
        },
        Escape::Xml => {
            if c == '&' {
                out.append("&amp;");
            } else if c == '<' {
                out.append("&lt;");
            } else if c == '>' {
                out.append("&gt;");
            } else if c == '"' {
                out.append("&quot;");
            } else if c == '\'' {
                out.append("&apos;");
            } else {
                string_push(out, c);
            }
        },
        Escape::Cmd => {
            if c == '"' {
                string_push(out, '"');
                string_push(out, '"');
            } else {
                string_push(out, c);
            }
        },
    }
    assert(final(out)@ =~= old(out)@ + escape_char(style, c));
}

fn push_escaped(out: &mut String, style: Escape, s: &str)
    ensures
        final(out)@ == old(out)@ + escaped(style, s@),
{
    let chars = chars_of(s);
    let ghost start = out@;
    let mut i: usize = 0;
    while i < chars.len()
        invariant
            chars@ == s@,
            i <= chars@.len(),
            out@ == start + escaped(style, chars@.take(i as int)),
        decreases chars@.len() - i,
    {
        push_escaped_char(out, style, chars[i]);
        proof {
            assert(chars@.take(i + 1).drop_last() =~= chars@.take(i as int));
            assert(out@ =~= start + escaped(style, chars@.take(i + 1)));
        }
        i = i + 1;
    }
    assert(chars@.take(chars@.len() as int) =~= chars@);
}

/// `s` with every character escaped under `style`.
pub fn escape_text(style: Escape, s: &str) -> (r: String)
    ensures
        r@ == escaped(style, s@),
{
    let mut out = String::new();
    push_escaped(&mut out, style, s);
    assert(out@ =~= escaped(style, s@));
    out
}

/// XML escaping of `value`, as used for the launch agent property list.
pub fn xml_escape(value: &str) -> (r: String)
    ensures
        r@ == escaped(Escape::Xml, value@),
{
    escape_text(Escape::Xml, value)
}

/// The `Exec=` value of a desktop entry for the program at `path`: the
/// path itself, or, when it holds whitespace, the path in double quotes
/// with backslashes and double quotes escaped.
pub open spec fn spec_desktop_exec_path(path: Seq<char>) -> Seq<char> {
    if exists|i: int| 0 <= i < path.len() && is_white_space(#[trigger] path[i]) {
        seq!['"'] + escaped(Escape::DesktopExec, path) + seq!['"']
    } else {
        path
    }
}

fn has_whitespace(s: &str) -> (r: bool)
    ensures
        r == exists|i: int| 0 <= i < s@.len() && is_white_space(#[trigger] s@[i]),
{
    let chars = chars_of(s);
    let mut i: usize = 0;
    while i < chars.len()
        invariant
            chars@ == s@,
            i <= chars@.len(),
            forall|j: int| 0 <= j < i ==> !is_white_space(#[trigger] s@[j]),
        decreases chars@.len() - i,
    {
        if char_is_whitespace(chars[i]) {
            return true;
        }
        i = i + 1;
    }
    false
}

/// The `Exec=` value of a desktop entry for the program at `path`.
pub fn desktop_exec_path(path: &str) -> (r: String)
    ensures
        r@ == spec_desktop_exec_path(path@),
{
    if has_whitespace(path) {
        let mut out = String::new();
        string_push(&mut out, '"');
        push_escaped(&mut out, Escape::DesktopExec, path);
        string_push(&mut out, '"');
        assert(out@ =~= seq!['"'] + escaped(Escape::DesktopExec, path@) + seq!['"']);
        out
    } else {
        path.to_owned()
    }
}

/// The XDG autostart desktop entry that launches the program at `exe`.
pub open spec fn spec_desktop_autostart_entry(exe: Seq<char>) -> Seq<char> {
    "[Desktop Entry]\nType=Application\nName=Lan Mouse Ex\nComment=Mouse & Keyboard sharing via LAN\nExec="@
        + spec_desktop_exec_path(exe) + "\nTryExec="@ + exe
        + "\nIcon=de.feschber.LanMouse\nTerminal=false\nStartupNotify=true\nX-GNOME-Autostart-enabled=true\n"@
}

/// The XDG autostart desktop entry that launches the program at `exe`.
pub fn desktop_autostart_entry(exe: &str) -> (r: String)
    ensures
        r@ == spec_desktop_autostart_entry(exe@),
{
    let mut out = String::new();
    out.append(
        "[Desktop Entry]\nType=Application\nName=Lan Mouse Ex\nComment=Mouse & Keyboard sharing via LAN\nExec=",
    );
    let exec = desktop_exec_path(exe);
    out.append(exec.as_str());
    out.append("\nTryExec=");
    out.append(exe);
    out.append(
        "\nIcon=de.feschber.LanMouse\nTerminal=false\nStartupNotify=true\nX-GNOME-Autostart-enabled=true\n",
    );
    assert(out@ =~= spec_desktop_autostart_entry(exe@));
    out
}

/// The launch agent property list that starts the program at `exe` at login.
pub open spec fn spec_launch_agent_entry(exe: Seq<char>) -> Seq<char> {
    "<?xml version=\"1.0\" encoding=\"UTF-8\"?>\n<!DOCTYPE plist PUBLIC \"-//Apple//DTD PLIST 1.0//EN\" \"http://www.apple.com/DTDs/PropertyList-1.0.dtd\">\n<plist version=\"1.0\">\n<dict>\n<key>Label</key>\n<string>de.feschber.LanMouse</string>\n<key>ProgramArguments</key>\n<array>\n<string>"@
        + escaped(Escape::Xml, exe)
        + "</string>\n</array>\n<key>RunAtLoad</key>\n<true/>\n</dict>\n</plist>\n"@
}

/// The launch agent property list that starts the program at `exe` at login.
pub fn launch_agent_entry(exe: &str) -> (r: String)
    ensures
        r@ == spec_launch_agent_entry(exe@),
{
    let mut out = String::new();
    out.append(
        "<?xml version=\"1.0\" encoding=\"UTF-8\"?>\n<!DOCTYPE plist PUBLIC \"-//Apple//DTD PLIST 1.0//EN\" \"http://www.apple.com/DTDs/PropertyList-1.0.dtd\">\n<plist version=\"1.0\">\n<dict>\n<key>Label</key>\n<string>de.feschber.LanMouse</string>\n<key>ProgramArguments</key>\n<array>\n<string>",
    );
    push_escaped(&mut out, Escape::Xml, exe);
    out.append("</string>\n</array>\n<key>RunAtLoad</key>\n<true/>\n</dict>\n</plist>\n");
    assert(out@ =~= spec_launch_agent_entry(exe@));
    out
}

/// The startup batch file that starts the program at `exe` at login.
pub open spec fn spec_startup_script(exe: Seq<char>) -> Seq<char> {
    "@echo off\r\nstart \"Lan Mouse Ex\" \""@ + escaped(Escape::Cmd, exe) + "\"\r\n"@
}

/// The startup batch file that starts the program at `exe` at login.
pub fn startup_script(exe: &str) -> (r: String)
    ensures
        r@ == spec_startup_script(exe@),
{
    let mut out = String::new();
    out.append("@echo off\r\nstart \"Lan Mouse Ex\" \"");
    push_escaped(&mut out, Escape::Cmd, exe);
    out.append("\"\r\n");
    assert(out@ =~= spec_startup_script(exe@));
    out
}


/// The port used when the entered text is not a port number.
pub const DEFAULT_PORT: u16 = 4242;

/// The character of a decimal digit.
pub open spec fn digit_char(d: nat) -> char {
    if d == 0 {
        '0'
    } else if d == 1 {
        '1'
    } else if d == 2 {
        '2'
    } else if d == 3 {
        '3'
    } else if d == 4 {
        '4'
    } else if d == 5 {
        '5'
    } else if d == 6 {
        '6'
    } else if d == 7 {
        '7'
    } else if d == 8 {
        '8'
    } else {
        '9'
    }
}

/// The value of a decimal digit character, if it is one.
pub open spec fn digit_value(c: char) -> Option<nat> {
    if '0' <= c && c <= '9' {
        Some(((c as u32) - ('0' as u32)) as nat)
    } else {
        None
    }
}

/// Decimal notation of `n`, without leading zeros.
pub open spec fn decimal(n: nat) -> Seq<char>
    decreases n,
{
    if n < 10 {
        seq![digit_char(n)]
    } else {
        decimal(n / 10).push(digit_char(n % 10))
    }
}

fn digit(d: u64) -> (c: char)
    requires
        d < 10,
    ensures
        c == digit_char(d as nat),
{
    if d == 0 {
        '0'
    } else if d == 1 {
        '1'
    } else if d == 2 {
        '2'
    } else if d == 3 {
        '3'
    } else if d == 4 {
        '4'
    } else if d == 5 {
        '5'
    } else if d == 6 {
        '6'
    } else if d == 7 {
        '7'
    } else if d == 8 {
        '8'
    } else {
        '9'
    }
}

fn push_decimal(out: &mut String, n: u64)
    ensures
        final(out)@ == old(out)@ + decimal(n as nat),
    decreases n,
{
    if n >= 10 {
        push_decimal(out, n / 10);
    }
    string_push(out, digit(n % 10));
    assert(final(out)@ =~= old(out)@ + decimal(n as nat));
}

/// Decimal notation of `n`, as `to_string` writes it.
pub fn decimal_string(n: u64) -> (r: String)
    ensures
        r@ == decimal(n as nat),
{
    let mut out = String::new();
    push_decimal(&mut out, n);
    assert(out@ =~= decimal(n as nat));
    out
}

/// Value of a string of decimal digits.
pub open spec fn digits_value(d: Seq<char>) -> nat
    decreases d.len(),
{
    if d.len() == 0 {
        0
    } else {
        digits_value(d.drop_last()) * 10 + match digit_value(d.last()) {
            Some(v) => v,
            None => 0,
        }
    }
}

/// The digits part of a number: `s` without a leading `+` (unless the `+`
/// is all there is).
pub open spec fn unsigned_digits(s: Seq<char>) -> Seq<char> {
    if s.len() > 1 && s[0] == '+' {
        s.drop_first()
    } else {
        s
    }
}

/// Every character of `d` is a decimal digit.
pub open spec fn all_digits(d: Seq<char>) -> bool {
    forall|i: int| 0 <= i < d.len() ==> (#[trigger] digit_value(d[i])) is Some
}

/// The `u16` that `str::parse::<u16>` reads from `s`: an optional `+`
/// (not alone) followed by one or more decimal digits whose value fits.
pub open spec fn parse_u16(s: Seq<char>) -> Option<u16> {
    let d = unsigned_digits(s);
    if d.len() == 0 || !all_digits(d) || digits_value(d) > u16::MAX {
        None
    } else {
        Some(digits_value(d) as u16)
    }
}

/// The port named by the text of the port entry, or `DEFAULT_PORT` when
/// it names none.
pub fn port_from_text(text: &str) -> (r: u16)
    ensures
        r == match parse_u16(text@) {
            Some(p) => p,
            None => DEFAULT_PORT,
        },
{
    let s = chars_of(text);
    let n = s.len();
    let first: usize = if n > 1 && s[0] == '+' {
        1
    } else {
        0
    };
    let ghost d = s@.subrange(first as int, n as int);
    assert(d =~= unsigned_digits(s@));
    if first == n {
        return DEFAULT_PORT;
    }
    let mut value: u64 = 0;
    let mut i: usize = first;
    while i < n
        invariant
            s@ == text@,
            n == s@.len(),
            first <= i <= n,
            d == s@.subrange(first as int, n as int),
            d == unsigned_digits(text@),
            d.len() > 0,
            forall|j: int| 0 <= j < i - first ==> (#[trigger] digit_value(d[j])) is Some,
            value == if digits_value(d.take(i - first)) > 65536 {
                65536
            } else {
                digits_value(d.take(i - first))
            },
        decreases n - i,
    {
        let c = s[i];
        if !('0' <= c && c <= '9') {
            assert(d[i - first] == c);
            assert(digit_value(d[i - first]) is None);
            return DEFAULT_PORT;
        }
        let dv = (c as u32 - '0' as u32) as u64;
        proof {
            assert(d.take(i + 1 - first).drop_last() =~= d.take(i - first));
            assert(d.take(i + 1 - first).last() == c);
        }
        value = if value * 10 + dv > 65536 {
            65536
        } else {
            value * 10 + dv
        };
        i = i + 1;
    }
    assert(d.take(n - first) =~= d);
    if value > 65535 {
        DEFAULT_PORT
    } else {
        value as u16
    }
}


/// The word shown for an on/off setting.
pub open spec fn spec_enabled_label(enabled: bool) -> Seq<char> {
    if enabled {
        "enabled"@
    } else {
        "disabled"@
    }
}

/// The word shown for an on/off setting.
pub fn enabled_label(enabled: bool) -> (r: &'static str)
    ensures
        r@ == spec_enabled_label(enabled),
{
    if enabled {
        "enabled"
    } else {
        "disabled"
    }
}

/// What the diagnostics window shows of one configured peer.
pub struct ClientSummary {
    pub handle: u64,
    pub hostname: Option<String>,
    pub ips: Vec<String>,
    pub active: bool,
    pub position: String,
}

/// Mathematical value of a [`ClientSummary`].
pub struct ClientSummaryView {
    pub handle: u64,
    pub hostname: Option<Seq<char>>,
    pub ips: Seq<Seq<char>>,
    pub active: bool,
    pub position: Seq<char>,
}

impl View for ClientSummary {
    type V = ClientSummaryView;

    open spec fn view(&self) -> ClientSummaryView {
        ClientSummaryView {
            handle: self.handle,
            hostname: match self.hostname {
                Some(h) => Some(h@),
                None => None,
            },
            ips: self.ips@.map_values(|ip: String| ip@),
            active: self.active,
            position: self.position@,
        }
    }
}

/// The strings of `list` with `sep` between each two, as `join` gives.
pub open spec fn joined_with(list: Seq<Seq<char>>, sep: Seq<char>) -> Seq<char>
    decreases list.len(),
{
    if list.len() == 0 {
        Seq::empty()
    } else if list.len() == 1 {
        list[0]
    } else {
        joined_with(list.drop_last(), sep) + sep + list.last()
    }
}

/// The name a peer is listed under: its hostname, or `client <handle>`
/// when it has none or an empty one.
pub open spec fn client_name(c: ClientSummaryView) -> Seq<char> {
    match c.hostname {
        Some(h) => if h.len() > 0 {
            h
        } else {
            "client "@ + decimal(c.handle as nat)
        },
        None => "client "@ + decimal(c.handle as nat),
    }
}

/// The line shown for a peer: its state, position and addresses.
pub open spec fn client_line(c: ClientSummaryView) -> Seq<char> {
    (if c.active {
        "active"@
    } else {
        "inactive"@
    }) + ", "@ + c.position + ", "@ + if c.ips.len() == 0 {
        "unresolved"@
    } else {
        joined_with(c.ips, ", "@)
    }
}

fn join_strings(list: &Vec<String>, sep: &str) -> (r: String)
    ensures
        r@ == joined_with(list@.map_values(|v: String| v@), sep@),
{
    let ghost views = list@.map_values(|v: String| v@);
    let mut out = String::new();
    let mut i: usize = 0;
    while i < list.len()
        invariant
            views == list@.map_values(|v: String| v@),
            i <= list@.len(),
            out@ == joined_with(views.take(i as int), sep@),
        decreases list@.len() - i,
    {
        if i != 0 {
            out.append(sep);
        }
        out.append(list[i].as_str());
        proof {
            assert(views.take(i + 1).drop_last() =~= views.take(i as int));
            if i == 0 {
                assert(out@ =~= joined_with(views.take(1), sep@));
            }
        }
        i = i + 1;
    }
    assert(views.take(list@.len() as int) =~= views);
    out
}

/// The name a peer is listed under in the diagnostics window.
pub fn client_display_name(c: &ClientSummary) -> (r: String)
    ensures
        r@ == client_name(c@),
{
    match &c.hostname {
        Some(h) => {
            if !h.as_str().is_empty() {
                return h.clone();
            }
        },
        None => {},
    }
    let mut out = String::new();
    out.append("client ");
    push_decimal(&mut out, c.handle);
    assert(out@ =~= "client "@ + decimal(c.handle as nat));
    out
}

/// The line shown for a peer in the diagnostics window.
pub fn client_display_line(c: &ClientSummary) -> (r: String)
    ensures
        r@ == client_line(c@),
{
    let mut out = String::new();
    out.append(if c.active {
        "active"
    } else {
        "inactive"
    });
    out.append(", ");
    out.append(c.position.as_str());
    out.append(", ");
    if c.ips.len() == 0 {
        out.append("unresolved");
    } else {
        let ips = join_strings(&c.ips, ", ");
        out.append(ips.as_str());
    }
    assert(out@ =~= client_line(c@));
    out
}

/// One line of the diagnostics window: a labelled value, or a separator.
pub enum DiagnosticsLine {
    Row(String, String),
    Separator,
}

/// Mathematical value of a [`DiagnosticsLine`].
pub enum DiagnosticsLineView {
    Row(Seq<char>, Seq<char>),
    Separator,
}

impl View for DiagnosticsLine {
    type V = DiagnosticsLineView;

    open spec fn view(&self) -> DiagnosticsLineView {
        match self {
            DiagnosticsLine::Row(a, b) => DiagnosticsLineView::Row(a@, b@),
            DiagnosticsLine::Separator => DiagnosticsLineView::Separator,
        }
    }
}

/// What the diagnostics window reports.
pub struct DiagnosticsSnapshot {
    pub capture_active: bool,
    pub emulation_active: bool,
    pub clipboard_sharing: bool,
    pub autostart: bool,
    pub swap_option_command: bool,
    pub sync_lock: bool,
    pub port: u16,
    pub clients: Vec<ClientSummary>,
    pub authorized_count: u32,
    pub last_event: String,
}

/// How many peers the diagnostics window lists one by one.
pub const DIAGNOSTICS_PEER_ROWS: usize = 5;

/// The lines of the diagnostics window: the six settings, the port, a
/// separator, the number of configured peers, the first five of them, the
/// number of authorized peers and the last event (`none` when empty).
pub open spec fn diagnostics_lines(s: DiagnosticsSnapshot) -> Seq<DiagnosticsLineView> {
    let listed = if s.clients@.len() < 5 {
        s.clients@.len()
    } else {
        5
    };
    seq![
        DiagnosticsLineView::Row("Capture"@, spec_enabled_label(s.capture_active)),
        DiagnosticsLineView::Row("Emulation"@, spec_enabled_label(s.emulation_active)),
        DiagnosticsLineView::Row("Clipboard"@, spec_enabled_label(s.clipboard_sharing)),
        DiagnosticsLineView::Row("Autostart"@, spec_enabled_label(s.autostart)),
        DiagnosticsLineView::Row("Option/Command swap"@, spec_enabled_label(s.swap_option_command)),
        DiagnosticsLineView::Row("Sync Lock"@, spec_enabled_label(s.sync_lock)),
        DiagnosticsLineView::Row("Port"@, decimal(s.port as nat)),
        DiagnosticsLineView::Separator,
        DiagnosticsLineView::Row("Configured peers"@, decimal(s.clients@.len())),
    ] + Seq::new(
        listed,
        |i: int|
            DiagnosticsLineView::Row(client_name(s.clients@[i]@), client_line(s.clients@[i]@)),
    ) + seq![
        DiagnosticsLineView::Row("Authorized peers"@, decimal(s.authorized_count as nat)),
        DiagnosticsLineView::Row(
            "Last event"@,
            if s.last_event@.len() == 0 {
                "none"@
            } else {
                s.last_event@
            },
        ),
    ]
}

/// Each settings row of the diagnostics window shows its own setting: the
/// first seven lines are the rows `Capture`, `Emulation`, `Clipboard`,
/// `Autostart`, `Option/Command swap` and `Sync Lock`, each reading
/// `enabled` exactly when that setting is on and `disabled` otherwise,
/// followed by `Port` with the port in decimal.
pub proof fn lemma_settings_rows_show_their_settings(s: DiagnosticsSnapshot)
    ensures
        diagnostics_lines(s)[0] == DiagnosticsLineView::Row(
            "Capture"@,
            if s.capture_active {
                "enabled"@
            } else {
                "disabled"@
            },
        ),
        diagnostics_lines(s)[1] == DiagnosticsLineView::Row(
            "Emulation"@,
            if s.emulation_active {
                "enabled"@
            } else {
                "disabled"@
            },
        ),
        diagnostics_lines(s)[2] == DiagnosticsLineView::Row(
            "Clipboard"@,
            if s.clipboard_sharing {
                "enabled"@
            } else {
                "disabled"@
            },
        ),
        diagnostics_lines(s)[3] == DiagnosticsLineView::Row(
            "Autostart"@,
            if s.autostart {
                "enabled"@
            } else {
                "disabled"@
            },
        ),
        diagnostics_lines(s)[4] == DiagnosticsLineView::Row(
            "Option/Command swap"@,
            if s.swap_option_command {
                "enabled"@
            } else {
                "disabled"@
            },
        ),
        diagnostics_lines(s)[5] == DiagnosticsLineView::Row(
            "Sync Lock"@,
            if s.sync_lock {
                "enabled"@
            } else {
                "disabled"@
            },
        ),
        diagnostics_lines(s)[6] == DiagnosticsLineView::Row("Port"@, decimal(s.port as nat)),
        diagnostics_lines(s)[7] == DiagnosticsLineView::Separator,
{
}

fn row(label: &str, value: &str) -> (r: DiagnosticsLine)
    ensures
        r@ == DiagnosticsLineView::Row(label@, value@),
{
    DiagnosticsLine::Row(label.to_owned(), value.to_owned())
}

/// The lines of the diagnostics window, as [`diagnostics_lines`] says.
pub fn diagnostics(s: &DiagnosticsSnapshot) -> (r: Vec<DiagnosticsLine>)
    ensures
        r@.map_values(|l: DiagnosticsLine| l@) == diagnostics_lines(*s),
{
    let mut lines: Vec<DiagnosticsLine> = Vec::new();
    lines.push(row("Capture", enabled_label(s.capture_active)));
    lines.push(row("Emulation", enabled_label(s.emulation_active)));
    lines.push(row("Clipboard", enabled_label(s.clipboard_sharing)));
    lines.push(row("Autostart", enabled_label(s.autostart)));
    lines.push(row("Option/Command swap", enabled_label(s.swap_option_command)));
    lines.push(row("Sync Lock", enabled_label(s.sync_lock)));
    lines.push(DiagnosticsLine::Row("Port".to_owned(), decimal_string(s.port as u64)));
    lines.push(DiagnosticsLine::Separator);
    lines.push(
        DiagnosticsLine::Row("Configured peers".to_owned(), decimal_string(s.clients.len() as u64)),
    );
    let ghost head = lines@.map_values(|l: DiagnosticsLine| l@);
    let ghost spec = diagnostics_lines(*s);
    assert(head.len() == 9);
    assert(forall|j: int| 0 <= j < 9 ==> head[j] == spec[j]);
    let listed = if s.clients.len() < DIAGNOSTICS_PEER_ROWS {
        s.clients.len()
    } else {
        DIAGNOSTICS_PEER_ROWS
    };
    let mut i: usize = 0;
    while i < listed
        invariant
            listed <= s.clients@.len(),
            i <= listed,
            lines@.len() == head.len() + i,
            forall|j: int| 0 <= j < head.len() ==> #[trigger] lines@[j]@ == head[j],
            forall|j: int|
                0 <= j < i ==> #[trigger] lines@[head.len() + j]@ == DiagnosticsLineView::Row(
                    client_name(s.clients@[j]@),
                    client_line(s.clients@[j]@),
                ),
        decreases listed - i,
    {
        let name = client_display_name(&s.clients[i]);
        let line = client_display_line(&s.clients[i]);
        lines.push(DiagnosticsLine::Row(name, line));
        i = i + 1;
    }
    lines.push(
        DiagnosticsLine::Row("Authorized peers".to_owned(), decimal_string(s.authorized_count as u64)),
    );
    if s.last_event.as_str().is_empty() {
        lines.push(row("Last event", "none"));
    } else {
        lines.push(DiagnosticsLine::Row("Last event".to_owned(), s.last_event.clone()));
    }
    assert(spec.len() == lines@.len());
    let ghost all = lines@.map_values(|l: DiagnosticsLine| l@);
    assert forall|j: int| 0 <= j < spec.len() implies #[trigger] all[j] == spec[j] by {
        if j < 9 {
            assert(lines@[j]@ == head[j]);
        } else if j < 9 + listed {
            assert(lines@[head.len() + (j - 9)]@ == spec[j]);
        }
    }
    assert(all =~= diagnostics_lines(*s));
    lines
}


/// Which of the capture/emulation warning widgets are shown.
#[derive(Clone, Copy, Debug, PartialEq, Eq, Structural)]
pub struct StatusRows {
    pub capture_row_visible: bool,
    pub emulation_row_visible: bool,
    pub group_visible: bool,
}

/// Warning widgets for the capture and emulation state. Where both share
/// one permission (macOS), a single row stands for both and shows when
/// either is off; elsewhere each row shows when its part is off. The group
/// shows when either is off.
pub fn capture_emulation_status(capture: bool, emulation: bool, shared_permission: bool) -> (r:
    StatusRows)
    ensures
        r.group_visible == (!capture || !emulation),
        shared_permission ==> r.capture_row_visible == (!capture || !emulation)
            && !r.emulation_row_visible,
        !shared_permission ==> r.capture_row_visible == !capture && r.emulation_row_visible
            == !emulation,
{
    let anything_off = !capture || !emulation;
    if shared_permission {
        StatusRows {
            capture_row_visible: anything_off,
            emulation_row_visible: false,
            group_visible: anything_off,
        }
    } else {
        StatusRows {
            capture_row_visible: !capture,
            emulation_row_visible: !emulation,
            group_visible: anything_off,
        }
    }
}

/// Texts of the shared permission warning row: title, subtitle and button
/// label. With the permission granted but capture or emulation still off,
/// a relaunch is needed; without it, the permission must be granted.
pub fn permission_warning_text(accessibility_granted: bool) -> (r: (
    &'static str,
    &'static str,
    &'static str,
))
    ensures
        accessibility_granted ==> r.0@ == "relaunch required"@ && r.1@
            == "Accessibility granted \u{2014} restart to activate capture and emulation"@ && r.2@
            == "Relaunch"@,
        !accessibility_granted ==> r.0@ == "input capture is disabled"@ && r.1@
            == "grant Accessibility permission to enable"@ && r.2@ == "Grant"@,
{
    if accessibility_granted {
        (
            "relaunch required",
            "Accessibility granted \u{2014} restart to activate capture and emulation",
            "Relaunch",
        )
    } else {
        ("input capture is disabled", "grant Accessibility permission to enable", "Grant")
    }
}

/// Which setters a switch needs to show `enabled`: its active flag and
/// its state are each set only when they differ.
pub fn switch_updates(is_active: bool, state: bool, enabled: bool) -> (r: (bool, bool))
    ensures
        r.0 == (is_active != enabled),
        r.1 == (state != enabled),
{
    (is_active != enabled, state != enabled)
}

/// Requests the window sends to the service.
#[derive(Clone, Debug, PartialEq, Eq)]
pub enum FrontendRequest {
    UpdateHostname(u64, Option<String>),
    UpdatePort(u64, u16),
    Activate(u64, bool),
    Delete(u64),
    ResolveDns(u64),
    UpdatePosition(u64, Position),
    ChangePort(u16),
}

/// Signals a client row emits when the user edits it.
#[derive(Clone, Debug, PartialEq, Eq)]
pub enum ClientRowSignal {
    HostnameChange(String),
    PortChange(u32),
    Activate(bool),
    Delete,
    Dns,
    PositionChange(u32),
}

/// The position chosen in a row's position drop-down: left, right, top,
/// and bottom for every other index.
pub open spec fn spec_position_from_index(index: u32) -> Position {
    if index == 0 {
        Position::Left
    } else if index == 1 {
        Position::Right
    } else if index == 2 {
        Position::Top
    } else {
        Position::Bottom
    }
}

/// The position chosen in a row's position drop-down.
pub fn position_from_index(index: u32) -> (r: Position)
    ensures
        r == spec_position_from_index(index),
        r.spec_to_u8() == if index < 3 {
            index as u8
        } else {
            3u8
        },
{
    if index == 0 {
        Position::Left
    } else if index == 1 {
        Position::Right
    } else if index == 2 {
        Position::Top
    } else {
        Position::Bottom
    }
}

/// The drop-down lists the positions in the order left, right, top,
/// bottom, which is also the order of their protocol numbers: the entry
/// at a position's number selects that position, and every index past
/// the last entry selects bottom.
pub proof fn lemma_drop_down_order(p: Position, index: u32)
    ensures
        spec_position_from_index(p.spec_to_u8() as u32) == p,
        index >= 3 ==> spec_position_from_index(index) == Position::Bottom,
        spec_position_from_index(0) == Position::Left,
        spec_position_from_index(1) == Position::Right,
        spec_position_from_index(2) == Position::Top,
{
}

/// The request a row signal of client `handle` turns into: an empty
/// hostname clears it, a port is cut to 16 bits, a drop-down index picks
/// a position.
pub fn client_row_request(handle: u64, signal: ClientRowSignal) -> (r: FrontendRequest)
    ensures
        match signal {
            ClientRowSignal::HostnameChange(h) => match r {
                FrontendRequest::UpdateHostname(x, Some(n)) => x == handle && h@.len() > 0 && n@
                    == h@,
                FrontendRequest::UpdateHostname(x, None) => x == handle && h@.len() == 0,
                _ => false,
            },
            ClientRowSignal::PortChange(p) => r == FrontendRequest::UpdatePort(handle, p as u16),
            ClientRowSignal::Activate(a) => r == FrontendRequest::Activate(handle, a),
            ClientRowSignal::Delete => r == FrontendRequest::Delete(handle),
            ClientRowSignal::Dns => r == FrontendRequest::ResolveDns(handle),
            ClientRowSignal::PositionChange(i) => r == FrontendRequest::UpdatePosition(
                handle,
                spec_position_from_index(i),
            ),
        },
        forall|p: Position|
            signal == ClientRowSignal::PositionChange(#[trigger] p.spec_to_u8() as u32) ==> r
                == FrontendRequest::UpdatePosition(handle, p),
{
    match signal {
        ClientRowSignal::HostnameChange(h) => {
            if h.as_str().is_empty() {
                FrontendRequest::UpdateHostname(handle, None)
            } else {
                FrontendRequest::UpdateHostname(handle, Some(h))
            }
        },
        ClientRowSignal::PortChange(p) => FrontendRequest::UpdatePort(handle, p as u16),
        ClientRowSignal::Activate(a) => FrontendRequest::Activate(handle, a),
        ClientRowSignal::Delete => FrontendRequest::Delete(handle),
        ClientRowSignal::Dns => FrontendRequest::ResolveDns(handle),
        ClientRowSignal::PositionChange(i) => FrontendRequest::UpdatePosition(
            handle,
            position_from_index(i),
        ),
    }
}

/// The request for the text in the port entry: that port, or the default
/// port when the text names none.
pub fn port_change_request(text: &str) -> (r: FrontendRequest)
    ensures
        r == FrontendRequest::ChangePort(
            match parse_u16(text@) {
                Some(p) => p,
                None => DEFAULT_PORT,
            },
        ),
{
    FrontendRequest::ChangePort(port_from_text(text))
}


/// The row of the client with the given handle: the first index holding
/// it, if any.
pub fn client_index(handles: &[u64], handle: u64) -> (r: Option<usize>)
    ensures
        match r {
            Some(i) => i < handles@.len() && handles@[i as int] == handle && forall|j: int|
                0 <= j < i ==> handles@[j] != handle,
            None => forall|j: int| 0 <= j < handles@.len() ==> handles@[j] != handle,
        },
{
    let mut i: usize = 0;
    while i < handles.len()
        invariant
            i <= handles@.len(),
            forall|j: int| 0 <= j < i ==> handles@[j] != handle,
        decreases handles@.len() - i,
    {
        if handles[i] == handle {
            return Some(i);
        }
        i = i + 1;
    }
    None
}

} // verus!

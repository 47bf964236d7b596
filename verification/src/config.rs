//! Configuration helpers: paths under the config folder, the saved-device
//! list and the settings file.
//!
//! The runtime owns every file read and write and the discovery of the
//! config folder itself; this module only computes: it joins path names,
//! parses and renders the device list (one `name|ip` entry per line, the
//! name ending at the first separator), looks a device up by name, and
//! reads the debug flag out of the settings text.

use vstd::prelude::*;

verus! {

use vstd::string::{StrSliceExecFns, StringExecFns};

/// Name of the folder, beside the executable, that holds all settings.
pub const CONFIG_FOLDER: &'static str = "budbridgeconfig";

/// Subfolder for debug logs.
pub const LOGS_FOLDER: &'static str = "logs";

/// File holding the saved device list.
pub const DEVICES_FILE: &'static str = "devices.txt";

/// File holding the default device's name.
pub const DEFAULT_DEVICE_FILE: &'static str = "default.txt";

/// File holding the settings text.
pub const SETTINGS_FILE: &'static str = "settings.txt";

/// Index of the first occurrence of `c` in `s`, or -1 when absent.
pub open spec fn find_char(s: Seq<char>, c: char) -> int
    decreases s.len(),
{
    if s.len() == 0 {
        -1
    } else if s[0] == c {
        0
    } else {
        let r = find_char(s.skip(1), c);
        if r < 0 {
            -1
        } else {
            r + 1
        }
    }
}

/// `find_char` finds exactly the first occurrence: a non-negative result
/// points at `c` with none before it, and -1 means `c` does not occur.
pub proof fn lemma_find_char_spec(s: Seq<char>, c: char)
    ensures
        ({
            let i = find_char(s, c);
            &&& i >= 0 ==> 0 <= i < s.len() && s[i] == c && (forall|j: int|
                0 <= j < i ==> s[j] != c)
            &&& i < 0 ==> forall|j: int| 0 <= j < s.len() ==> s[j] != c
        }),
    decreases s.len(),
{
    if s.len() == 0 {
    } else if s[0] == c {
    } else {
        lemma_find_char_spec(s.skip(1), c);
        let r = find_char(s.skip(1), c);
        if r >= 0 {
            assert(s.skip(1)[r] == s[r + 1]);
            assert forall|j: int| 0 <= j < r + 1 implies s[j] != c by {
                if j > 0 {
                    assert(s.skip(1)[j - 1] == s[j]);
                }
            }
        } else {
            assert forall|j: int| 0 <= j < s.len() implies s[j] != c by {
                if j > 0 {
                    assert(s.skip(1)[j - 1] == s[j]);
                }
            }
        }
    }
}

/// The segments of `s` between newline characters, in order; the newline
/// characters themselves belong to no segment.
pub open spec fn split_lines_spec(s: Seq<char>) -> Seq<Seq<char>>
    decreases s.len(),
{
    let i = find_char(s, '\n');
    if 0 <= i < s.len() {
        seq![s.take(i)] + split_lines_spec(s.skip(i + 1))
    } else {
        seq![s]
    }
}

/// A line with one trailing carriage return removed.
pub open spec fn strip_cr(line: Seq<char>) -> Seq<char> {
    if line.len() > 0 && line.last() == '\r' {
        line.drop_last()
    } else {
        line
    }
}

/// A device entry parsed from one line: the name before the first `|`,
/// the address after it; a line without a separator is no entry.
pub open spec fn parse_line_spec(line: Seq<char>) -> Option<(Seq<char>, Seq<char>)> {
    let i = find_char(line, '|');
    if 0 <= i < line.len() {
        Some((line.take(i), line.skip(i + 1)))
    } else {
        None
    }
}

/// The entries parsed from a sequence of raw lines, carriage returns
/// stripped, lines without a separator skipped.
pub open spec fn devices_of_lines(lines: Seq<Seq<char>>) -> Seq<(Seq<char>, Seq<char>)>
    decreases lines.len(),
{
    if lines.len() == 0 {
        Seq::empty()
    } else {
        let rest = devices_of_lines(lines.drop_first());
        match parse_line_spec(strip_cr(lines[0])) {
            Some(d) => seq![d] + rest,
            None => rest,
        }
    }
}

/// The lines of a file's text: split at newlines, with a final empty
/// segment (from a trailing newline, or an empty file) not counted as a
/// line.
pub open spec fn effective_lines(s: Seq<char>) -> Seq<Seq<char>> {
    let parts = split_lines_spec(s);
    if parts.len() > 0 && parts.last().len() == 0 {
        parts.drop_last()
    } else {
        parts
    }
}

/// The device entries held in a device file's text.
pub open spec fn parse_devices_spec(s: Seq<char>) -> Seq<(Seq<char>, Seq<char>)> {
    devices_of_lines(effective_lines(s))
}

/// Splitting yields at least one segment.
pub proof fn lemma_split_lines_nonempty(s: Seq<char>)
    ensures
        split_lines_spec(s).len() >= 1,
{
}

/// How the parse decomposes at the first newline: the first segment's
/// entry (if any) followed by the parse of the rest; text without a
/// newline is a single segment.
pub proof fn lemma_parse_devices_step(s: Seq<char>)
    requires
        s.len() > 0,
    ensures
        ({
            let i = find_char(s, '\n');
            &&& (0 <= i < s.len()) ==> parse_devices_spec(s) == (match parse_line_spec(
                strip_cr(s.take(i)),
            ) {
                Some(d) => seq![d] + parse_devices_spec(s.skip(i + 1)),
                None => parse_devices_spec(s.skip(i + 1)),
            })
            &&& !(0 <= i < s.len()) ==> parse_devices_spec(s) == (match parse_line_spec(
                strip_cr(s),
            ) {
                Some(d) => seq![d],
                None => Seq::<(Seq<char>, Seq<char>)>::empty(),
            })
        }),
{
    let i = find_char(s, '\n');
    if 0 <= i < s.len() {
        let head = s.take(i);
        let rest = s.skip(i + 1);
        let parts = split_lines_spec(s);
        let rest_parts = split_lines_spec(rest);
        assert(parts =~~= seq![head] + rest_parts);
        lemma_split_lines_nonempty(rest);
        assert(parts.last() == rest_parts.last());
        if rest_parts.last().len() == 0 {
            assert(effective_lines(s) =~~= seq![head] + effective_lines(rest));
        } else {
            assert(effective_lines(s) =~~= seq![head] + effective_lines(rest));
        }
        let el = effective_lines(s);
        assert(el.len() >= 1 && el[0] == head);
        assert(el.drop_first() =~~= effective_lines(rest));
    } else {
        assert(split_lines_spec(s) =~~= seq![s]);
        assert(effective_lines(s) =~~= seq![s]);
        let el = effective_lines(s);
        assert(el.len() == 1 && el[0] == s);
        assert(el.drop_first() =~~= Seq::<Seq<char>>::empty());
        match parse_line_spec(strip_cr(s)) {
            Some(d) => {
                assert(devices_of_lines(el) == seq![d] + devices_of_lines(el.drop_first()));
                assert(seq![d] + Seq::<(Seq<char>, Seq<char>)>::empty() =~~= seq![d]);
            },
            None => {
                assert(devices_of_lines(el) == devices_of_lines(el.drop_first()));
                assert(el.drop_first().len() == 0);
                assert(devices_of_lines(el.drop_first()) =~~= Seq::<(Seq<char>, Seq<char>)>::empty());
            },
        }
    }
}

/// One saved peer device: a display name and a network address.
pub struct SavedDevice {
    pub name: String,
    pub ip: String,
}

impl View for SavedDevice {
    type V = (Seq<char>, Seq<char>);

    open spec fn view(&self) -> (Seq<char>, Seq<char>) {
        (self.name@, self.ip@)
    }
}

/// One `name|ip` line of the device file.
pub open spec fn render_device(d: (Seq<char>, Seq<char>)) -> Seq<char> {
    d.0 + seq!['|'] + d.1
}

/// The device file's text for a device list: one line per device, joined
/// with single newlines and no trailing newline.
pub open spec fn render_devices(ds: Seq<(Seq<char>, Seq<char>)>) -> Seq<char>
    decreases ds.len(),
{
    if ds.len() == 0 {
        Seq::empty()
    } else if ds.len() == 1 {
        render_device(ds[0])
    } else {
        render_devices(ds.drop_last()) + seq!['\n'] + render_device(ds.last())
    }
}

/// Join a directory and an entry name with a path separator.
pub fn join_path(dir: &str, name: &str) -> (path: String)
    ensures
        path@ == dir@ + seq!['/'] + name@,
{
    let mut path: String = String::from_str(dir);
    path.append("/");
    path.append(name);
    proof {
        reveal_strlit("/");
        assert("/"@ =~= seq!['/']);
        assert(path@ =~= dir@ + seq!['/'] + name@);
    }
    path
}

/// Where debug logs live under the config folder.
pub fn get_logs_path(config_folder: &str) -> (path: String)
    ensures
        path@ == config_folder@ + seq!['/'] + LOGS_FOLDER@,
{
    join_path(config_folder, LOGS_FOLDER)
}

/// Where the saved device list lives under the config folder.
pub fn get_devices_path(config_folder: &str) -> (path: String)
    ensures
        path@ == config_folder@ + seq!['/'] + DEVICES_FILE@,
{
    join_path(config_folder, DEVICES_FILE)
}

/// Where the default device's name lives under the config folder.
pub fn get_default_device_path(config_folder: &str) -> (path: String)
    ensures
        path@ == config_folder@ + seq!['/'] + DEFAULT_DEVICE_FILE@,
{
    join_path(config_folder, DEFAULT_DEVICE_FILE)
}

/// Where the settings text lives under the config folder.
pub fn get_settings_path(config_folder: &str) -> (path: String)
    ensures
        path@ == config_folder@ + seq!['/'] + SETTINGS_FILE@,
{
    join_path(config_folder, SETTINGS_FILE)
}

/// Scan `s` from `from` for the first occurrence of `c`.
fn find_char_from(s: &str, from: usize, c: char) -> (r: Option<usize>)
    requires
        from <= s@.len(),
    ensures
        match r {
            Some(i) => {
                &&& from <= i < s@.len()
                &&& s@[i as int] == c
                &&& forall|j: int| from <= j < i ==> s@[j] != c
                &&& find_char(s@.skip(from as int), c) == i - from
            },
            None => {
                &&& forall|j: int| from <= j < s@.len() ==> s@[j] != c
                &&& find_char(s@.skip(from as int), c) == -1
            },
        },
{
    let n: usize = s.unicode_len();
    let ghost sub = s@.skip(from as int);
    proof {
        lemma_find_char_spec(sub, c);
        assert forall|j: int| 0 <= j < sub.len() implies sub[j] == s@[from + j] by {}
    }
    let mut i: usize = from;
    while i < n
        invariant
            from <= i <= n,
            n == s@.len(),
            sub == s@.skip(from as int),
            forall|j: int| from <= j < i ==> s@[j] != c,
        decreases n - i,
    {
        if s.get_char(i) == c {
            proof {
                lemma_find_char_spec(sub, c);
                let k = find_char(sub, c);
                assert(sub[i - from] == s@[i as int]);
                if k < 0 {
                    assert(sub[i - from] != c);
                    assert(false);
                }
                if k < i - from {
                    assert(s@[from + k] == sub[k]);
                    assert(false);
                }
                if k > i - from {
                    assert(sub[i - from] != c);
                    assert(false);
                }
            }
            return Some(i);
        }
        i = i + 1;
    }
    proof {
        lemma_find_char_spec(sub, c);
        let k = find_char(sub, c);
        if k >= 0 {
            assert(s@[from + k] == sub[k]);
            assert(false);
        }
    }
    None
}

/// Parse the device file's text: one `name|ip` device per line, the name
/// ending at the first separator; lines without a separator are skipped.
pub fn parse_saved_devices(content: &str) -> (devices: Vec<SavedDevice>)
    ensures
        devices@.map_values(|d: SavedDevice| d@) == parse_devices_spec(content@),
{
    let total: usize = content.unicode_len();
    let mut devices: Vec<SavedDevice> = Vec::new();
    let mut pos: usize = 0;
    proof {
        assert(content@.skip(0) =~= content@);
        assert(devices@.map_values(|d: SavedDevice| d@) =~~= Seq::<(Seq<char>, Seq<char>)>::empty());
    }
    while pos < total
        invariant
            pos <= total,
            total == content@.len(),
            parse_devices_spec(content@) =~~= devices@.map_values(|d: SavedDevice| d@)
                + parse_devices_spec(content@.skip(pos as int)),
        decreases total - pos,
    {
        let ghost old_pos = pos as int;
        let ghost remainder = content@.skip(old_pos);
        let nl: Option<usize> = find_char_from(content, pos, '\n');
        let end: usize = match nl {
            Some(i) => i,
            None => total,
        };
        let line: &str = content.substring_char(pos, end);
        let llen: usize = end - pos;
        proof {
            assert(line@ =~= remainder.take(llen as int));
        }
        let stripped_end: usize = if llen > 0 && line.get_char(llen - 1) == '\r' {
            llen - 1
        } else {
            llen
        };
        let line2: &str = line.substring_char(0, stripped_end);
        proof {
            assert(line2@ =~= strip_cr(line@));
        }
        let bar: Option<usize> = find_char_from(line2, 0, '|');
        let ghost prev = devices@;
        let ghost entry = parse_line_spec(line2@);
        match bar {
            Some(b) => {
                let name_str: &str = line2.substring_char(0, b);
                let ln2: usize = line2.unicode_len();
                let ip_str: &str = line2.substring_char(b + 1, ln2);
                let dev = SavedDevice {
                    name: String::from_str(name_str),
                    ip: String::from_str(ip_str),
                };
                proof {
                    assert(line2@.skip(0) =~= line2@);
                    assert(name_str@ =~= line2@.take(b as int));
                    assert(ip_str@ =~= line2@.skip(b as int + 1));
                    assert(entry == Some((name_str@, ip_str@)));
                    assert(dev@ == (name_str@, ip_str@));
                }
                devices.push(dev);
                proof {
                    assert(devices@.map_values(|d: SavedDevice| d@) =~~= prev.map_values(
                        |d: SavedDevice| d@,
                    ) + seq![(name_str@, ip_str@)]);
                }
            },
            None => {
                proof {
                    assert(line2@.skip(0) =~= line2@);
                    assert(entry is None);
                }
            },
        }
        let next_pos: usize = match nl {
            Some(i) => i + 1,
            None => total,
        };
        proof {
            lemma_parse_devices_step(remainder);
            let fc = find_char(remainder, '\n');
            match nl {
                Some(i) => {
                    assert(fc == i - old_pos);
                    assert(remainder.take(fc) =~= line@);
                    assert(remainder.skip(fc + 1) =~= content@.skip(next_pos as int));
                },
                None => {
                    assert(fc == -1);
                    assert(content@.skip(next_pos as int) =~= Seq::<char>::empty());
                    lemma_parse_devices_empty();
                },
            }
            assert(parse_devices_spec(content@) =~~= devices@.map_values(|d: SavedDevice| d@)
                + parse_devices_spec(content@.skip(next_pos as int)));
        }
        pos = next_pos;
    }
    proof {
        assert(content@.skip(total as int) =~= Seq::<char>::empty());
        lemma_parse_devices_empty();
        assert(devices@.map_values(|d: SavedDevice| d@) =~~= parse_devices_spec(content@));
    }
    devices
}

/// Empty text holds no devices.
proof fn lemma_parse_devices_empty()
    ensures
        parse_devices_spec(Seq::<char>::empty()) == Seq::<(Seq<char>, Seq<char>)>::empty(),
{
    let s = Seq::<char>::empty();
    assert(find_char(s, '\n') == -1);
    assert(split_lines_spec(s) =~~= seq![s]);
    assert(effective_lines(s) =~~= Seq::<Seq<char>>::empty());
    assert(devices_of_lines(Seq::<Seq<char>>::empty()) =~~= Seq::<(Seq<char>, Seq<char>)>::empty());
}

/// Render the device list as the device file's text.
pub fn render_saved_devices(devices: &Vec<SavedDevice>) -> (text: String)
    ensures
        text@ == render_devices(devices@.map_values(|d: SavedDevice| d@)),
{
    let n: usize = devices.len();
    let mut text: String = String::new();
    let mut i: usize = 0;
    while i < n
        invariant
            i <= n,
            n == devices@.len(),
            text@ == render_devices(devices@.map_values(|d: SavedDevice| d@).take(i as int)),
        decreases n - i,
    {
        if i > 0 {
            text.append("\n");
        }
        text.append(devices[i].name.as_str());
        text.append("|");
        text.append(devices[i].ip.as_str());
        proof {
            reveal_strlit("\n");
            reveal_strlit("|");
            assert("\n"@ =~= seq!['\n']);
            assert("|"@ =~= seq!['|']);
            let m = devices@.map_values(|d: SavedDevice| d@);
            assert(m.take(i + 1).drop_last() =~~= m.take(i as int));
            assert(m.take(i + 1).last() == m[i as int]);
            assert(m[i as int] == devices@[i as int]@);
            if i == 0 {
                assert(text@ =~= render_device(m[0]));
                assert(m.take(1)[0] == m[0]);
                assert(text@ =~= render_devices(m.take(1)));
            } else {
                assert(text@ =~= render_devices(m.take(i as int)) + seq!['\n'] + render_device(
                    m[i as int],
                ));
                assert(text@ =~= render_devices(m.take(i + 1)));
            }
        }
        i = i + 1;
    }
    proof {
        let m = devices@.map_values(|d: SavedDevice| d@);
        assert(m.take(n as int) =~~= m);
    }
    text
}

/// The position of the first saved device with the given name, if any.
pub fn find_device_index(devices: &Vec<SavedDevice>, name: &String) -> (r: Option<usize>)
    ensures
        match r {
            Some(i) => {
                &&& i < devices@.len()
                &&& devices@[i as int]@.0 == name@
                &&& forall|j: int| 0 <= j < i ==> devices@[j]@.0 != name@
            },
            None => forall|j: int| 0 <= j < devices@.len() ==> devices@[j]@.0 != name@,
        },
{
    let n: usize = devices.len();
    let mut i: usize = 0;
    while i < n
        invariant
            i <= n,
            n == devices@.len(),
            forall|j: int| 0 <= j < i ==> devices@[j]@.0 != name@,
        decreases n - i,
    {
        if devices[i].name == *name {
            return Some(i);
        }
        i = i + 1;
    }
    None
}

/// Whether the settings text (already trimmed by the caller) switches
/// debug logging on.
pub fn parse_debug_setting(text: &String) -> (enabled: bool)
    ensures
        enabled == (text@ == "debug=true"@),
{
    let expected: String = String::from_str("debug=true");
    *text == expected
}

/// The settings text for a debug-logging choice.
pub fn render_debug_setting(enabled: bool) -> (text: String)
    ensures
        enabled ==> text@ == "debug=true"@,
        !enabled ==> text@ == "debug=false"@,
{
    if enabled {
        String::from_str("debug=true")
    } else {
        String::from_str("debug=false")
    }
}

} // verus!

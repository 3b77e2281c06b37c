//! Where the monitor gets its settings: the port remembered in the settings
//! store, the environment, and built-in defaults, in that order; and the
//! format of the file from which the environment is filled.

use crate::numeric::{parse_u32, parse_u32_range};
use crate::text::{
    opt_text, split_on, split_ranges, string_from_range, to_chars, trim, trim_range,
};
use vstd::prelude::*;
use vstd::string::*;

verus! {

/// The baud rate used where none is configured.
pub const DEFAULT_BAUD_RATE: u32 = 115_200;

/// The settings of one monitored port.
#[derive(Debug, Clone, PartialEq, Eq)]
pub struct SerialConfig {
    pub port: String,
    pub baud_rate: u32,
    pub api_endpoint: String,
}

pub struct SerialConfigView {
    pub port: Seq<char>,
    pub baud_rate: u32,
    pub api_endpoint: Seq<char>,
}

impl View for SerialConfig {
    type V = SerialConfigView;

    open spec fn view(&self) -> SerialConfigView {
        SerialConfigView {
            port: self.port@,
            baud_rate: self.baud_rate,
            api_endpoint: self.api_endpoint@,
        }
    }
}

/// The port to monitor: the one remembered, else the one configured, else `COM3`.
pub open spec fn resolved_port(stored: Option<Seq<char>>, configured: Option<Seq<char>>) -> Seq<
    char,
> {
    match stored {
        Some(port) => port,
        None => match configured {
            Some(port) => port,
            None => "COM3"@,
        },
    }
}

/// The baud rate: the one configured if it is an unsigned 32-bit decimal
/// number, else the default.
pub open spec fn resolved_baud_rate(configured: Option<Seq<char>>) -> u32 {
    match configured {
        Some(text) => match parse_u32(text) {
            Ok(rate) => rate,
            Err(_) => DEFAULT_BAUD_RATE,
        },
        None => DEFAULT_BAUD_RATE,
    }
}

/// The address of the detection service: the one configured, else the local default.
pub open spec fn resolved_endpoint(configured: Option<Seq<char>>) -> Seq<char> {
    match configured {
        Some(endpoint) => endpoint,
        None => "http://localhost:8000/api/detect"@,
    }
}

/// The port to monitor: the one remembered in the settings store, else
/// the one configured in the environment, else `COM3`.
pub fn resolve_port(stored: Option<String>, configured: Option<String>) -> (port: String)
    ensures
        port@ == resolved_port(opt_text(stored), opt_text(configured)),
{
    match stored {
        Some(port) => port,
        None => match configured {
            Some(port) => port,
            None => String::from_str("COM3"),
        },
    }
}

/// The settings of the monitor, from what the settings store and the
/// environment hold.
pub fn resolve_serial_config(
    stored_port: Option<String>,
    configured_port: Option<String>,
    configured_baud_rate: Option<String>,
    configured_endpoint: Option<String>,
) -> (config: SerialConfig)
    ensures
        config@ == (SerialConfigView {
            port: resolved_port(opt_text(stored_port), opt_text(configured_port)),
            baud_rate: resolved_baud_rate(opt_text(configured_baud_rate)),
            api_endpoint: resolved_endpoint(opt_text(configured_endpoint)),
        }),
{
    let port = resolve_port(stored_port, configured_port);
    let baud_rate = match configured_baud_rate {
        Some(text) => {
            let v = to_chars(text.as_str());
            assert(v@.subrange(0, v.len() as int) == text@);
            match parse_u32_range(&v, 0, v.len()) {
                Ok(rate) => rate,
                Err(_) => DEFAULT_BAUD_RATE,
            }
        },
        None => DEFAULT_BAUD_RATE,
    };
    let api_endpoint = match configured_endpoint {
        Some(endpoint) => endpoint,
        None => String::from_str("http://localhost:8000/api/detect"),
    };
    SerialConfig { port, baud_rate, api_endpoint }
}

/// The number of characters of `s` before the first `c`; all of them if there is none.
pub open spec fn position_of(s: Seq<char>, c: char) -> nat
    decreases s.len(),
{
    if s.len() == 0 || s[0] == c {
        0
    } else {
        1 + position_of(s.skip(1), c)
    }
}

/// `value` without the pair of double quotes, or else of single quotes, around it.
pub open spec fn unquoted(value: Seq<char>) -> Seq<char> {
    if value.len() >= 2 && value[0] == '"' && value.last() == '"' {
        value.subrange(1, value.len() - 1)
    } else if value.len() >= 2 && value[0] == '\'' && value.last() == '\'' {
        value.subrange(1, value.len() - 1)
    } else {
        value
    }
}

/// The variable that one line of an environment file sets, if it sets one.
///
/// Blank lines and lines that start with `#` set nothing, nor do lines
/// without `=`. The name is what stands before the first `=`, the value what
/// stands after it, both without surrounding whitespace, the value also
/// without a pair of quotes around it.
pub open spec fn env_entry(line: Seq<char>) -> Option<(Seq<char>, Seq<char>)> {
    let text = trim(line);
    if text.len() == 0 || text[0] == '#' {
        None
    } else {
        let at = position_of(text, '=') as int;
        if at == text.len() {
            None
        } else {
            Some((trim(text.take(at)), unquoted(trim(text.skip(at + 1)))))
        }
    }
}

/// The variables that the lines set, in order.
pub open spec fn env_entries(lines: Seq<Seq<char>>) -> Seq<(Seq<char>, Seq<char>)>
    decreases lines.len(),
{
    if lines.len() == 0 {
        Seq::<(Seq<char>, Seq<char>)>::empty()
    } else {
        match env_entry(lines.last()) {
            Some(entry) => env_entries(lines.drop_last()).push(entry),
            None => env_entries(lines.drop_last()),
        }
    }
}

/// The contents of a list of variables.
pub open spec fn entries_view(entries: Seq<(String, String)>) -> Seq<(Seq<char>, Seq<char>)> {
    entries.map_values(|e: (String, String)| (e.0@, e.1@))
}

/// The contents of an optional variable.
pub open spec fn opt_entry_view(entry: Option<(String, String)>) -> Option<
    (Seq<char>, Seq<char>),
> {
    match entry {
        Some(e) => Some((e.0@, e.1@)),
        None => None,
    }
}

/// The index of the first `c` in `v[lo..hi]`, or `hi` if there is none.
fn find_char(v: &Vec<char>, lo: usize, hi: usize, c: char) -> (at: usize)
    requires
        lo <= hi <= v.len(),
    ensures
        lo <= at <= hi,
        at - lo == position_of(v@.subrange(lo as int, hi as int), c),
{
    let mut i: usize = lo;
    while i < hi && v[i] != c
        invariant
            lo <= i <= hi <= v.len(),
            position_of(v@.subrange(lo as int, hi as int), c) == (i - lo) + position_of(
                v@.subrange(i as int, hi as int),
                c,
            ),
        decreases hi - i,
    {
        assert(v@.subrange(i as int, hi as int).skip(1) == v@.subrange(i + 1, hi as int));
        i += 1;
    }
    i
}

/// Reads the line of an environment file in `v[lo..hi]`.
fn env_entry_range(v: &Vec<char>, lo: usize, hi: usize) -> (entry: Option<(String, String)>)
    requires
        lo <= hi <= v.len(),
    ensures
        opt_entry_view(entry) == env_entry(v@.subrange(lo as int, hi as int)),
{
    let (a, b) = trim_range(v, lo, hi);
    if a == b || v[a] == '#' {
        return None;
    }
    let ghost text = v@.subrange(a as int, b as int);
    let at = find_char(v, a, b, '=');
    if at == b {
        return None;
    }
    assert(text.take(at - a) == v@.subrange(a as int, at as int));
    assert(text.skip(at - a + 1) == v@.subrange(at + 1, b as int));
    let (k0, k1) = trim_range(v, a, at);
    let (v0, v1) = trim_range(v, at + 1, b);
    let ghost value = v@.subrange(v0 as int, v1 as int);
    let quoted = v1 - v0 >= 2 && ((v[v0] == '"' && v[v1 - 1] == '"') || (v[v0] == '\'' && v[v1
        - 1] == '\''));
    let (u0, u1) = if quoted {
        (v0 + 1, v1 - 1)
    } else {
        (v0, v1)
    };
    assert(v@.subrange(u0 as int, u1 as int) == unquoted(value)) by {
        if quoted {
            assert(value.subrange(1, value.len() - 1) == v@.subrange(v0 + 1, v1 - 1));
        }
    }
    Some((string_from_range(v, k0, k1), string_from_range(v, u0, u1)))
}

/// Reads an environment file: the variables it sets, in the order of its lines.
pub fn parse_dotenv(content: &str) -> (entries: Vec<(String, String)>)
    ensures
        entries_view(entries@) == env_entries(split_on(content@, '\n')),
{
    let v = to_chars(content);
    let bounds = split_ranges(&v, 0, v.len(), '\n');
    let ghost lines = split_on(content@, '\n');
    let mut entries: Vec<(String, String)> = Vec::new();
    let mut k: usize = 0;
    proof {
        assert(v@.subrange(0, v.len() as int) == content@);
        assert(lines.take(0) == Seq::<Seq<char>>::empty());
        assert(entries_view(entries@) == Seq::<(Seq<char>, Seq<char>)>::empty());
    }
    while k < bounds.len()
        invariant
            k <= bounds.len(),
            lines == split_on(content@, '\n'),
            bounds@.len() == lines.len(),
            forall|j: int|
                0 <= j < bounds@.len() ==> {
                    &&& (#[trigger] bounds@[j]).0 <= bounds@[j].1 <= v@.len()
                    &&& lines[j] == v@.subrange(bounds@[j].0 as int, bounds@[j].1 as int)
                },
            entries_view(entries@) == env_entries(lines.take(k as int)),
        decreases bounds.len() - k,
    {
        let (lo, hi) = bounds[k];
        proof {
            assert(lines.take(k + 1).drop_last() == lines.take(k as int));
            assert(lines.take(k + 1).last() == lines[k as int]);
        }
        match env_entry_range(&v, lo, hi) {
            Some(entry) => {
                proof {
                    assert(entries_view(entries@.push(entry)) == entries_view(entries@).push(
                        (entry.0@, entry.1@),
                    ));
                }
                entries.push(entry);
            },
            None => {},
        }
        k += 1;
    }
    assert(lines.take(bounds.len() as int) == lines);
    entries
}

} // verus!

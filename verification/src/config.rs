//! The hub's configuration.
use vstd::prelude::*;
use crate::text::chars_of;

verus! {

/// What the hub needs to reach the sandbox and the language models.
#[derive(Clone, Debug)]
pub struct AppConfig {
    pub hub_port: u16,
    pub vm_ip: String,
    pub vm_user: String,
    pub ssh_key_path: String,
    pub xai_api_key: Option<String>,
    pub deepseek_api_key: Option<String>,
}

pub open spec fn is_digit(c: char) -> bool {
    '0' <= c && c <= '9'
}

/// The number that a string of decimal digits writes.
pub open spec fn digits_value(s: Seq<char>) -> int
    decreases s.len(),
{
    if s.len() == 0 {
        0
    } else {
        10 * digits_value(s.drop_last()) + (s.last() as int - 48)
    }
}

/// `s` without one leading `+`.
pub open spec fn unsigned_digits(s: Seq<char>) -> Seq<char> {
    if s.len() > 0 && s[0] == '+' {
        s.drop_first()
    } else {
        s
    }
}

pub open spec fn all_digits(d: Seq<char>) -> bool {
    forall|i: int| 0 <= i < d.len() ==> is_digit(#[trigger] d[i])
}

/// `u16::from_str`: an optional `+`, then at least one decimal digit and
/// nothing else, writing a number no larger than `u16::MAX`.
pub open spec fn parse_u16(s: Seq<char>) -> Option<u16> {
    let d = unsigned_digits(s);
    if d.len() > 0 && all_digits(d) && digits_value(d) <= 65535 {
        Some(digits_value(d) as u16)
    } else {
        None
    }
}

/// Parses a port number as `str::parse::<u16>` does.
pub fn parse_port(s: &str) -> (r: Option<u16>)
    ensures
        r == parse_u16(s@),
{
    let v = chars_of(s);
    let start: usize = if v.len() > 0 && v[0] == '+' {
        1
    } else {
        0
    };
    let ghost d = v@.subrange(start as int, v.len() as int);
    assert(d =~= unsigned_digits(s@));
    if start >= v.len() {
        return None;
    }
    let mut acc: u32 = 0;
    let mut i = start;
    while i < v.len()
        invariant
            start <= i <= v.len(),
            d == v@.subrange(start as int, v.len() as int),
            v@ == s@,
            d == unsigned_digits(s@),
            forall|k: int| start <= k < i ==> is_digit(#[trigger] v@[k]),
            0 <= digits_value(v@.subrange(start as int, i as int)),
            acc as int == if digits_value(v@.subrange(start as int, i as int)) < 65536 {
                digits_value(v@.subrange(start as int, i as int))
            } else {
                65536
            },
        decreases v.len() - i,
    {
        let c = v[i];
        if !('0' <= c && c <= '9') {
            assert(d[i - start] == c);
            assert(!is_digit(d[i - start]));
            assert(!all_digits(d));
            return None;
        }
        let dig: u32 = (c as u32) - 48;
        assert(v@.subrange(start as int, i + 1).drop_last() =~= v@.subrange(start as int, i as int));
        assert(v@.subrange(start as int, i + 1).last() == c);
        let next = acc * 10 + dig;
        acc = if next < 65536 {
            next
        } else {
            65536
        };
        i = i + 1;
    }
    assert(v@.subrange(start as int, v.len() as int) == d);
    assert forall|k: int| 0 <= k < d.len() implies is_digit(#[trigger] d[k]) by {
        assert(d[k] == v@[start + k]);
    }
    assert(all_digits(d));
    if acc < 65536 {
        Some(acc as u16)
    } else {
        None
    }
}

/// The port that the setting `STARSHIELD_HUB_PORT` selects: 8788 when the
/// setting is absent or does not parse.
pub open spec fn port_setting(v: Option<Seq<char>>) -> u16 {
    match v {
        Some(s) => match parse_u16(s) {
            Some(p) => p,
            None => 8788,
        },
        None => 8788,
    }
}

/// The view of an optional string.
pub open spec fn opt_view(v: Option<String>) -> Option<Seq<char>> {
    match v {
        Some(s) => Some(s@),
        None => None,
    }
}

/// `v`, or `default` when absent.
pub fn or_default(v: Option<String>, default: &str) -> (r: String)
    ensures
        r@ == match v {
            Some(s) => s@,
            None => default@,
        },
{
    match v {
        Some(s) => s,
        None => String::from_str(default),
    }
}

impl AppConfig {
    /// The configuration from the values of the settings `STARSHIELD_HUB_PORT`,
    /// `STARSHIELD_VM_IP`, `STARSHIELD_VM_USER`, `STARSHIELD_SSH_KEY`,
    /// `XAI_API_KEY` and `DEEPSEEK_API_KEY` (each absent or present), with the
    /// defaults of the sandbox for absent values.
    pub fn from_env_values(
        hub_port: Option<String>,
        vm_ip: Option<String>,
        vm_user: Option<String>,
        ssh_key_path: Option<String>,
        xai_api_key: Option<String>,
        deepseek_api_key: Option<String>,
    ) -> (c: AppConfig)
        ensures
            c.hub_port == port_setting(opt_view(hub_port)),
            c.vm_ip@ == (match vm_ip {
                Some(s) => s@,
                None => "10.211.55.4"@,
            }),
            c.vm_user@ == (match vm_user {
                Some(s) => s@,
                None => "samhuang"@,
            }),
            c.ssh_key_path@ == (match ssh_key_path {
                Some(s) => s@,
                None => "/Users/huangxin/.ssh/id_ed25519"@,
            }),
            c.xai_api_key == xai_api_key,
            c.deepseek_api_key == deepseek_api_key,
    {
        let port = match &hub_port {
            Some(s) => match parse_port(s.as_str()) {
                Some(p) => p,
                None => 8788,
            },
            None => 8788,
        };
        AppConfig {
            hub_port: port,
            vm_ip: or_default(vm_ip, "10.211.55.4"),
            vm_user: or_default(vm_user, "samhuang"),
            ssh_key_path: or_default(ssh_key_path, "/Users/huangxin/.ssh/id_ed25519"),
            xai_api_key,
            deepseek_api_key,
        }
    }
}

} // verus!

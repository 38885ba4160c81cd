use vstd::prelude::*;

use crate::text::{chars_of, hex_value, hex_value_of, split, split_chars, str_eq};
use vstd::string::StringSliceAdditionalSpecFns;

verus! {

/// A system control action a peer may ask this device to perform.
#[derive(Debug, Clone, Copy, PartialEq, Eq, Structural)]
pub enum SystemControlAction {
    Sleep,
    Shutdown,
    Lock,
    CancelPower,
    Play,
    Pause,
    Next,
    Previous,
    SetVolume,
    Mute,
    WakeOnLan,
    DisplayOff,
    DisplayOn,
}

/// The wire name of each action.
pub open spec fn action_name(action: SystemControlAction) -> Seq<char> {
    match action {
        SystemControlAction::Sleep => seq!['s', 'l', 'e', 'e', 'p'],
        SystemControlAction::Shutdown => seq!['s', 'h', 'u', 't', 'd', 'o', 'w', 'n'],
        SystemControlAction::Lock => seq!['l', 'o', 'c', 'k'],
        SystemControlAction::CancelPower => seq!['c', 'a', 'n', 'c', 'e', 'l', '-', 'p', 'o', 'w', 'e', 'r'],
        SystemControlAction::Play => seq!['p', 'l', 'a', 'y'],
        SystemControlAction::Pause => seq!['p', 'a', 'u', 's', 'e'],
        SystemControlAction::Next => seq!['n', 'e', 'x', 't'],
        SystemControlAction::Previous => seq!['p', 'r', 'e', 'v', 'i', 'o', 'u', 's'],
        SystemControlAction::SetVolume => seq!['s', 'e', 't', '-', 'v', 'o', 'l', 'u', 'm', 'e'],
        SystemControlAction::Mute => seq!['m', 'u', 't', 'e'],
        SystemControlAction::WakeOnLan => seq!['w', 'a', 'k', 'e', '-', 'o', 'n', '-', 'l', 'a', 'n'],
        SystemControlAction::DisplayOff => seq!['d', 'i', 's', 'p', 'l', 'a', 'y', '-', 'o', 'f', 'f'],
        SystemControlAction::DisplayOn => seq!['d', 'i', 's', 'p', 'l', 'a', 'y', '-', 'o', 'n'],
    }
}

/// The action a wire name denotes, if any.
pub open spec fn action_of_name(name: Seq<char>) -> Option<SystemControlAction> {
    if name == seq!['s', 'l', 'e', 'e', 'p'] {
        Some(SystemControlAction::Sleep)
    }     else if name == seq!['s', 'h', 'u', 't', 'd', 'o', 'w', 'n'] {
        Some(SystemControlAction::Shutdown)
    }     else if name == seq!['l', 'o', 'c', 'k'] {
        Some(SystemControlAction::Lock)
    }     else if name == seq!['c', 'a', 'n', 'c', 'e', 'l', '-', 'p', 'o', 'w', 'e', 'r'] {
        Some(SystemControlAction::CancelPower)
    }     else if name == seq!['p', 'l', 'a', 'y'] {
        Some(SystemControlAction::Play)
    }     else if name == seq!['p', 'a', 'u', 's', 'e'] {
        Some(SystemControlAction::Pause)
    }     else if name == seq!['n', 'e', 'x', 't'] {
        Some(SystemControlAction::Next)
    }     else if name == seq!['p', 'r', 'e', 'v', 'i', 'o', 'u', 's'] {
        Some(SystemControlAction::Previous)
    }     else if name == seq!['s', 'e', 't', '-', 'v', 'o', 'l', 'u', 'm', 'e'] {
        Some(SystemControlAction::SetVolume)
    }     else if name == seq!['m', 'u', 't', 'e'] {
        Some(SystemControlAction::Mute)
    }     else if name == seq!['w', 'a', 'k', 'e', '-', 'o', 'n', '-', 'l', 'a', 'n'] {
        Some(SystemControlAction::WakeOnLan)
    }     else if name == seq!['d', 'i', 's', 'p', 'l', 'a', 'y', '-', 'o', 'f', 'f'] {
        Some(SystemControlAction::DisplayOff)
    }     else if name == seq!['d', 'i', 's', 'p', 'l', 'a', 'y', '-', 'o', 'n'] {
        Some(SystemControlAction::DisplayOn)
    } else {
        None
    }
}

/// Every action's wire name parses back to that action.
pub proof fn lemma_action_name_roundtrip(action: SystemControlAction)
    ensures
        action_of_name(action_name(action)) == Some(action),
{
}

impl SystemControlAction {
    /// The action named by `value`; `None` for any other string.
    pub fn parse(value: &str) -> (r: Option<Self>)
        ensures
            r == action_of_name(value@),
    {
        proof {
            reveal_strlit("sleep");
            assert("sleep"@ =~= seq!['s', 'l', 'e', 'e', 'p']);
            reveal_strlit("shutdown");
            assert("shutdown"@ =~= seq!['s', 'h', 'u', 't', 'd', 'o', 'w', 'n']);
            reveal_strlit("lock");
            assert("lock"@ =~= seq!['l', 'o', 'c', 'k']);
            reveal_strlit("cancel-power");
            assert("cancel-power"@ =~= seq!['c', 'a', 'n', 'c', 'e', 'l', '-', 'p', 'o', 'w', 'e', 'r']);
            reveal_strlit("play");
            assert("play"@ =~= seq!['p', 'l', 'a', 'y']);
            reveal_strlit("pause");
            assert("pause"@ =~= seq!['p', 'a', 'u', 's', 'e']);
            reveal_strlit("next");
            assert("next"@ =~= seq!['n', 'e', 'x', 't']);
            reveal_strlit("previous");
            assert("previous"@ =~= seq!['p', 'r', 'e', 'v', 'i', 'o', 'u', 's']);
            reveal_strlit("set-volume");
            assert("set-volume"@ =~= seq!['s', 'e', 't', '-', 'v', 'o', 'l', 'u', 'm', 'e']);
            reveal_strlit("mute");
            assert("mute"@ =~= seq!['m', 'u', 't', 'e']);
            reveal_strlit("wake-on-lan");
            assert("wake-on-lan"@ =~= seq!['w', 'a', 'k', 'e', '-', 'o', 'n', '-', 'l', 'a', 'n']);
            reveal_strlit("display-off");
            assert("display-off"@ =~= seq!['d', 'i', 's', 'p', 'l', 'a', 'y', '-', 'o', 'f', 'f']);
            reveal_strlit("display-on");
            assert("display-on"@ =~= seq!['d', 'i', 's', 'p', 'l', 'a', 'y', '-', 'o', 'n']);
        }
        if str_eq(value, "sleep") {
            Some(SystemControlAction::Sleep)
        }         else if str_eq(value, "shutdown") {
            Some(SystemControlAction::Shutdown)
        }         else if str_eq(value, "lock") {
            Some(SystemControlAction::Lock)
        }         else if str_eq(value, "cancel-power") {
            Some(SystemControlAction::CancelPower)
        }         else if str_eq(value, "play") {
            Some(SystemControlAction::Play)
        }         else if str_eq(value, "pause") {
            Some(SystemControlAction::Pause)
        }         else if str_eq(value, "next") {
            Some(SystemControlAction::Next)
        }         else if str_eq(value, "previous") {
            Some(SystemControlAction::Previous)
        }         else if str_eq(value, "set-volume") {
            Some(SystemControlAction::SetVolume)
        }         else if str_eq(value, "mute") {
            Some(SystemControlAction::Mute)
        }         else if str_eq(value, "wake-on-lan") {
            Some(SystemControlAction::WakeOnLan)
        }         else if str_eq(value, "display-off") {
            Some(SystemControlAction::DisplayOff)
        }         else if str_eq(value, "display-on") {
            Some(SystemControlAction::DisplayOn)
        } else {
            None
        }
    }

    /// The wire name of this action.
    pub fn as_str(self) -> (name: &'static str)
        ensures
            name@ == action_name(self),
    {
        proof {
            reveal_strlit("sleep");
            assert("sleep"@ =~= seq!['s', 'l', 'e', 'e', 'p']);
            reveal_strlit("shutdown");
            assert("shutdown"@ =~= seq!['s', 'h', 'u', 't', 'd', 'o', 'w', 'n']);
            reveal_strlit("lock");
            assert("lock"@ =~= seq!['l', 'o', 'c', 'k']);
            reveal_strlit("cancel-power");
            assert("cancel-power"@ =~= seq!['c', 'a', 'n', 'c', 'e', 'l', '-', 'p', 'o', 'w', 'e', 'r']);
            reveal_strlit("play");
            assert("play"@ =~= seq!['p', 'l', 'a', 'y']);
            reveal_strlit("pause");
            assert("pause"@ =~= seq!['p', 'a', 'u', 's', 'e']);
            reveal_strlit("next");
            assert("next"@ =~= seq!['n', 'e', 'x', 't']);
            reveal_strlit("previous");
            assert("previous"@ =~= seq!['p', 'r', 'e', 'v', 'i', 'o', 'u', 's']);
            reveal_strlit("set-volume");
            assert("set-volume"@ =~= seq!['s', 'e', 't', '-', 'v', 'o', 'l', 'u', 'm', 'e']);
            reveal_strlit("mute");
            assert("mute"@ =~= seq!['m', 'u', 't', 'e']);
            reveal_strlit("wake-on-lan");
            assert("wake-on-lan"@ =~= seq!['w', 'a', 'k', 'e', '-', 'o', 'n', '-', 'l', 'a', 'n']);
            reveal_strlit("display-off");
            assert("display-off"@ =~= seq!['d', 'i', 's', 'p', 'l', 'a', 'y', '-', 'o', 'f', 'f']);
            reveal_strlit("display-on");
            assert("display-on"@ =~= seq!['d', 'i', 's', 'p', 'l', 'a', 'y', '-', 'o', 'n']);
        }
        match self {
            SystemControlAction::Sleep => "sleep",
            SystemControlAction::Shutdown => "shutdown",
            SystemControlAction::Lock => "lock",
            SystemControlAction::CancelPower => "cancel-power",
            SystemControlAction::Play => "play",
            SystemControlAction::Pause => "pause",
            SystemControlAction::Next => "next",
            SystemControlAction::Previous => "previous",
            SystemControlAction::SetVolume => "set-volume",
            SystemControlAction::Mute => "mute",
            SystemControlAction::WakeOnLan => "wake-on-lan",
            SystemControlAction::DisplayOff => "display-off",
            SystemControlAction::DisplayOn => "display-on",
        }
    }

    /// Whether a command for this action may carry `volume`: `set-volume`
    /// needs a volume from 0 to 100, the display actions accept anything, and
    /// every other action must carry none.
    pub fn accepts_volume(self, volume: Option<i32>) -> (r: bool)
        ensures
            r == match self {
                SystemControlAction::SetVolume => volume matches Some(v) && 0 <= v <= 100,
                SystemControlAction::DisplayOff | SystemControlAction::DisplayOn => true,
                _ => volume is None,
            },
    {
        match self {
            SystemControlAction::SetVolume => match volume {
                Some(v) => 0 <= v && v <= 100,
                None => false,
            },
            SystemControlAction::DisplayOff | SystemControlAction::DisplayOn => true,
            _ => volume.is_none(),
        }
    }

    /// Whether a command for this action may carry `target_mac`: wake-on-LAN
    /// needs a valid MAC address, the display actions accept anything, and
    /// every other action must carry none.
    pub fn accepts_target_mac(self, target_mac: Option<&str>) -> (r: bool)
        ensures
            r == match self {
                SystemControlAction::WakeOnLan => target_mac matches Some(mac) && valid_mac(mac),
                SystemControlAction::DisplayOff | SystemControlAction::DisplayOn => true,
                _ => target_mac is None,
            },
    {
        match self {
            SystemControlAction::WakeOnLan => match target_mac {
                Some(mac) => is_valid_wake_on_lan_mac(mac),
                None => false,
            },
            SystemControlAction::DisplayOff | SystemControlAction::DisplayOn => true,
            _ => target_mac.is_none(),
        }
    }

    /// Whether a command for this action may be delayed.
    pub fn supports_delay(self) -> (r: bool)
        ensures
            r == (self is Sleep || self is Shutdown || self is Lock || self is DisplayOff
                || self is DisplayOn),
    {
        match self {
            SystemControlAction::Sleep
            | SystemControlAction::Shutdown
            | SystemControlAction::Lock
            | SystemControlAction::DisplayOff
            | SystemControlAction::DisplayOn => true,
            _ => false,
        }
    }
}

/// One `:`-separated group of a MAC address as `u8::from_str_radix(_, 16)`
/// accepts it in two bytes: two hexadecimal digits, or `+` and one digit.
pub open spec fn valid_mac_part(part: Seq<char>) -> bool {
    &&& part.len() == 2
    &&& hex_value(part[1]) is Some
    &&& (hex_value(part[0]) is Some || part[0] == '+')
}

/// A wake-on-LAN target: 17 bytes long, and every `:`-separated group valid.
pub open spec fn valid_mac(value: &str) -> bool {
    &&& value.spec_bytes().len() as usize == 17
    &&& forall|i: int|
        0 <= i < split(value@, ':').len() ==> valid_mac_part(#[trigger] split(value@, ':')[i])
}

fn is_valid_mac_part(part: &[char]) -> (r: bool)
    ensures
        r == valid_mac_part(part@),
{
    part.len() == 2 && hex_value_of(part[1]).is_some() && (hex_value_of(part[0]).is_some()
        || part[0] == '+')
}

/// Whether `value` is a MAC address in the `aa:bb:cc:dd:ee:ff` form.
pub fn is_valid_wake_on_lan_mac(value: &str) -> (r: bool)
    ensures
        r == valid_mac(value),
{
    if value.len() != 17 {
        return false;
    }
    let chars = chars_of(value);
    let parts = split_chars(chars.as_slice(), ':');
    let mut i: usize = 0;
    while i < parts.len()
        invariant
            i <= parts@.len(),
            chars@ == value@,
            parts@.len() == split(value@, ':').len(),
            forall|j: int| 0 <= j < parts@.len() ==> #[trigger] parts@[j]@ == split(value@, ':')[j],
            forall|j: int| 0 <= j < i ==> valid_mac_part(#[trigger] split(value@, ':')[j]),
        decreases parts@.len() - i,
    {
        if !is_valid_mac_part(parts[i].as_slice()) {
            assert(!valid_mac_part(split(value@, ':')[i as int]));
            return false;
        }
        i = i + 1;
    }
    true
}

} // verus!
